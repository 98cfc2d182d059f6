//! One request against the TPM: measure, reset, extend, read, and quote.
//!
//! A TPM is a stateful device, so the commands of one request are one
//! indivisible sequence. [`Session`] says which command or file comes next and
//! is told the outcome; the program around this library holds a lock for as
//! long as a session runs. [`information_tpm`] and [`quote_tpm`] take the
//! response out of a finished session.

use crate::encoding;
use crate::paths;
use crate::text;
use crate::tpm::command;
use crate::tpm::command::{CommandOutcome, Scratch, ScratchModel};
use crate::tpm::config;
use crate::tpm::config::{ConfigModel, TpmConfig, TpmEnvironment, BACKEND_NAME, RC_SUCCESS};
use crate::tpm::error::{TpmError, TpmFault};
use crate::tpm::measure;
use crate::tpm::measure::{FolderScan, ScanModel};
use crate::tpm::nonce;
use crate::tpm::payload;
use crate::tpm::payload::{
    FolderMeasurement, FolderModel, InformationTpmResponse, QuoteEvidence, QuoteTpmResponse,
    TpmEvidence,
};
use vstd::prelude::*;
use vstd::utf8::*;

verus! {

// ---------------------------------------------------------------------------
// Backend state
// ---------------------------------------------------------------------------

/// Shared, process wide state of the TPM backend.
#[derive(Debug)]
pub struct TpmState {
    config: TpmConfig,
    /// Cached PEM of the Attestation Key public part.
    ak_pubkey: Option<String>,
}

/// The mathematical view of a [`TpmState`].
#[verifier::ext_equal]
pub struct StateModel {
    pub config: ConfigModel,
    pub ak_pubkey: Option<Seq<char>>,
}

impl View for TpmState {
    type V = StateModel;

    closed spec fn view(&self) -> StateModel {
        StateModel { config: self.config@, ak_pubkey: text::optional_view(self.ak_pubkey) }
    }
}

impl TpmState {
    /// Builds the state.
    pub fn new(config: TpmConfig) -> (r: Self)
        ensures
            r@ == (StateModel { config: config@, ak_pubkey: None }),
    {
        TpmState { config, ak_pubkey: None }
    }

    /// Builds the state of a deployment under `root` from the environment.
    pub fn from_env(env: TpmEnvironment, root: &[u8]) -> (r: Self)
        ensures
            r@ == (StateModel {
                config: config::resolved_config(env, root@),
                ak_pubkey: None,
            }),
    {
        TpmState::new(TpmConfig::from_env(env, root))
    }

    /// The resolved configuration.
    pub fn config(&self) -> (r: &TpmConfig)
        ensures
            r@ == self@.config,
    {
        &self.config
    }

    /// Remembers the public key that a session read, if it read one.
    fn remember(&mut self, pem: &Option<String>)
        ensures
            final(self)@ == old(self)@.after(text::optional_view(*pem)),
    {
        match pem {
            Some(text) => {
                self.ak_pubkey = Some(text.clone());
            },
            None => {},
        }
    }
}

impl StateModel {
    /// The state after a session that ended with the public key `pem`.
    pub open spec fn after(self, pem: Option<Seq<char>>) -> StateModel {
        match pem {
            Some(_) => StateModel { ak_pubkey: pem, ..self },
            None => self,
        }
    }
}

// ---------------------------------------------------------------------------
// Steps and events
// ---------------------------------------------------------------------------

/// Where a session is.
#[derive(Debug, Clone, Copy, PartialEq, Eq, Structural)]
pub enum Phase {
    /// Measuring the configured directory.
    Measure,
    /// Bringing the TPM out of reset.
    Startup,
    /// Resetting the PCR.
    Reset,
    /// Extending the PCR with the folder digest.
    Extend,
    /// Reading the PCR.
    PcrRead,
    /// Reading the file that the PCR was written to.
    PcrFile,
    /// Looking for the Attestation Key.
    GetCap,
    /// Releasing transient objects before the Endorsement Key is created.
    FlushEk,
    /// Creating the Endorsement Key.
    CreateEk,
    /// Releasing transient objects before the Attestation Key is created.
    FlushAk,
    /// Creating the Attestation Key.
    CreateAk,
    /// Releasing transient objects before the Attestation Key is persisted.
    FlushEvict,
    /// Persisting the Attestation Key.
    Evict,
    /// Releasing transient objects once the Attestation Key is persisted.
    FlushDone,
    /// Releasing transient objects before the quote.
    FlushQuote,
    /// Quoting the PCR.
    Quote,
    /// Reading the signature.
    SignatureFile,
    /// Reading the attestation structure.
    MessageFile,
    /// Reading the quoted PCRs.
    PcrsFile,
    /// Releasing transient objects before the public key is read.
    FlushPublic,
    /// Reading the public part of the Attestation Key.
    ReadPublic,
    /// Reading the file that the public key was written to.
    PemFile,
    /// Finished.
    Done,
    /// Given up.
    Failed,
}

/// What a session waits for.
#[derive(Debug)]
pub enum Step {
    /// Measure this directory.
    Measure(Vec<u8>),
    /// Run this program with these arguments.
    Run { binary: String, args: Vec<String> },
    /// Read this file.
    ReadFile(String),
    /// Read this file as text.
    ReadText(String),
    /// Nothing: the session is finished.
    Finished,
}

/// The mathematical view of a [`Step`].
pub enum StepModel {
    Measure(Seq<u8>),
    Run { binary: Seq<char>, args: Seq<Seq<char>> },
    ReadFile(Seq<char>),
    ReadText(Seq<char>),
    Finished,
}

impl View for Step {
    type V = StepModel;

    open spec fn view(&self) -> StepModel {
        match self {
            Step::Measure(dir) => StepModel::Measure(dir@),
            Step::Run { binary, args } => StepModel::Run {
                binary: binary@,
                args: text::views(args@),
            },
            Step::ReadFile(path) => StepModel::ReadFile(path@),
            Step::ReadText(path) => StepModel::ReadText(path@),
            Step::Finished => StepModel::Finished,
        }
    }
}

/// The outcome of what a session waits for.
#[derive(Debug)]
pub enum Event {
    /// Of [`Step::Measure`]: a finished scan of the directory.
    Measured(FolderScan),
    /// Of [`Step::Run`].
    Ran(CommandOutcome),
    /// Of [`Step::ReadFile`]: the contents, or why they cannot be read.
    File(Result<Vec<u8>, String>),
    /// Of [`Step::ReadText`]: the text, or why it cannot be read.
    Text(Result<String, String>),
}

/// The mathematical view of an [`Event`].
pub enum EventModel {
    Measured(ScanModel),
    Ran(CommandOutcome),
    File(Result<Seq<u8>, Seq<char>>),
    Text(Result<Seq<char>, Seq<char>>),
}

impl View for Event {
    type V = EventModel;

    open spec fn view(&self) -> EventModel {
        match self {
            Event::Measured(scan) => EventModel::Measured(scan@),
            Event::Ran(outcome) => EventModel::Ran(*outcome),
            Event::File(Ok(bytes)) => EventModel::File(Ok(bytes@)),
            Event::File(Err(reason)) => EventModel::File(Err(reason@)),
            Event::Text(Ok(text)) => EventModel::Text(Ok(text@)),
            Event::Text(Err(reason)) => EventModel::Text(Err(reason@)),
        }
    }
}

// ---------------------------------------------------------------------------
// Model
// ---------------------------------------------------------------------------

/// The state of a session.
#[verifier::ext_equal]
pub struct SessionModel {
    pub config: ConfigModel,
    pub scratch: ScratchModel,
    /// The challenge in canonical form, when the session is to quote.
    pub nonce: Option<Seq<char>>,
    /// The public key that an earlier session read.
    pub cached: Option<Seq<char>>,
    pub phase: Phase,
    /// The measured folder.
    pub folder: Option<FolderModel>,
    /// The value of the PCR after it was extended, in hexadecimal.
    pub pcr_value: Seq<char>,
    /// The raw `TPMT_SIGNATURE` of the quote.
    pub signature: Seq<u8>,
    /// The raw `TPMS_ATTEST` of the quote.
    pub message: Seq<u8>,
    /// The raw PCRs of the quote.
    pub pcrs: Seq<u8>,
    /// The public part of the Attestation Key.
    pub pem: Option<Seq<char>>,
    /// Why the session was given up.
    pub error: Option<TpmFault>,
}

/// Whether `scan` is a scan of the directory `dir` from its start to its end.
pub open spec fn finished_scan_of(scan: ScanModel, dir: Seq<u8>) -> bool {
    &&& scan.given == dir
    &&& scan.reached()
    &&& scan.action() is Finished
}

/// A session that has not started.
pub open spec fn session_start(
    state: StateModel,
    scratch: ScratchModel,
    nonce: Option<Seq<char>>,
) -> SessionModel {
    SessionModel {
        config: state.config,
        scratch,
        nonce,
        cached: state.ak_pubkey,
        phase: Phase::Measure,
        folder: None,
        pcr_value: Seq::empty(),
        signature: Seq::empty(),
        message: Seq::empty(),
        pcrs: Seq::empty(),
        pem: None,
        error: None,
    }
}

impl SessionModel {
    /// The path of a file in the scratch directory.
    pub open spec fn file(self, name: Seq<char>) -> Seq<char> {
        command::file_path(self.scratch.dir, name)
    }

    /// The index of the configured PCR, in decimal.
    pub open spec fn pcr(self) -> Seq<char> {
        text::decimal_text(self.config.pcr_index as nat)
    }

    /// The digest of the measured folder.
    pub open spec fn digest(self) -> Seq<char> {
        match self.folder {
            Some(folder) => folder.total_hash,
            None => Seq::empty(),
        }
    }

    /// The challenge to quote.
    pub open spec fn challenge(self) -> Seq<char> {
        match self.nonce {
            Some(nonce) => nonce,
            None => Seq::empty(),
        }
    }

    /// The subcommand that a phase runs.
    pub open spec fn subcommand(self) -> Seq<char> {
        match self.phase {
            Phase::Startup => "startup"@,
            Phase::Reset => "pcrreset"@,
            Phase::Extend => "pcrextend"@,
            Phase::PcrRead => "pcrread"@,
            Phase::GetCap => "getcap"@,
            Phase::CreateEk => "createek"@,
            Phase::CreateAk => "createak"@,
            Phase::Evict => "evictcontrol"@,
            Phase::Quote => "quote"@,
            Phase::ReadPublic => "readpublic"@,
            _ => "flushcontext"@,
        }
    }

    /// The arguments of the subcommand that a phase runs.
    pub open spec fn arguments(self) -> Seq<Seq<char>> {
        match self.phase {
            Phase::Startup => seq!["-c"@],
            Phase::Reset => seq![self.pcr()],
            Phase::Extend => seq![
                self.pcr() + ":"@ + self.config.hash_algorithm + "="@ + self.digest(),
            ],
            Phase::PcrRead => seq![self.config.selection(), "-o"@, self.file("pcr.bin"@)],
            Phase::GetCap => seq!["handles-persistent"@],
            Phase::CreateEk => seq![
                "-G"@,
                "rsa"@,
                "-c"@,
                self.file("ek.ctx"@),
                "-u"@,
                self.file("ek.pub"@),
            ],
            Phase::CreateAk => seq![
                "-C"@,
                self.file("ek.ctx"@),
                "-c"@,
                self.file("ak.ctx"@),
                "-G"@,
                "rsa"@,
                "-g"@,
                "sha256"@,
                "-s"@,
                "rsassa"@,
                "-u"@,
                self.file("ak.pub"@),
            ],
            Phase::Evict => seq![
                "-C"@,
                "o"@,
                "-c"@,
                self.file("ak.ctx"@),
                self.config.ak_handle,
            ],
            Phase::Quote => seq![
                "-c"@,
                self.config.ak_handle,
                "-g"@,
                self.config.hash_algorithm,
                "-l"@,
                self.config.selection(),
                "-q"@,
                self.challenge(),
                "-s"@,
                self.file("quote.sig"@),
                "-m"@,
                self.file("quote.msg"@),
                "-o"@,
                self.file("quote.pcrs"@),
            ],
            Phase::ReadPublic => seq![
                "-c"@,
                self.config.ak_handle,
                "-o"@,
                self.file("ak.pem"@),
                "-f"@,
                "pem"@,
            ],
            _ => seq!["-t"@],
        }
    }

    /// What the session waits for.
    pub open spec fn step(self) -> StepModel {
        match self.phase {
            Phase::Measure => StepModel::Measure(self.config.measure_dir),
            Phase::PcrFile => StepModel::ReadFile(self.file("pcr.bin"@)),
            Phase::SignatureFile => StepModel::ReadFile(self.file("quote.sig"@)),
            Phase::MessageFile => StepModel::ReadFile(self.file("quote.msg"@)),
            Phase::PcrsFile => StepModel::ReadFile(self.file("quote.pcrs"@)),
            Phase::PemFile => StepModel::ReadText(self.file("ak.pem"@)),
            Phase::Done => StepModel::Finished,
            Phase::Failed => StepModel::Finished,
            _ => StepModel::Run {
                binary: command::binary_name(self.subcommand()),
                args: self.arguments().push(command::tcti_option(self.config)),
            },
        }
    }

    /// Whether `event` is the outcome of what the session waits for.
    pub open spec fn awaits(self, event: EventModel) -> bool {
        match self.step() {
            StepModel::Measure(dir) => event matches EventModel::Measured(scan)
                && finished_scan_of(scan, dir),
            StepModel::Run { binary: _, args: _ } => event is Ran,
            StepModel::ReadFile(_) => event is File,
            StepModel::ReadText(_) => event is Text,
            StepModel::Finished => false,
        }
    }

    /// The session in another phase.
    pub open spec fn at(self, phase: Phase) -> SessionModel {
        SessionModel { phase, ..self }
    }

    /// The session given up.
    pub open spec fn failed(self, e: TpmFault) -> SessionModel {
        SessionModel { phase: Phase::Failed, error: Some(e), ..self }
    }

    /// The session finished, with the public key if it is known.
    pub open spec fn finished(self, pem: Option<Seq<char>>) -> SessionModel {
        SessionModel { phase: Phase::Done, pem, ..self }
    }

    /// The session once the Attestation Key is known not to be usable: a quote
    /// cannot be had without it, and information is given without it.
    pub open spec fn keyless(self, e: TpmFault) -> SessionModel {
        match self.nonce {
            Some(_) => self.failed(e),
            None => self.finished(None),
        }
    }

    /// The session once the evidence is complete: the public key is read unless
    /// an earlier session did.
    pub open spec fn publishing(self) -> SessionModel {
        match self.cached {
            Some(_) => self.finished(self.cached),
            None => self.at(Phase::FlushPublic),
        }
    }

    /// The session once the Attestation Key is known to be usable.
    pub open spec fn keyed(self) -> SessionModel {
        match self.nonce {
            Some(_) => self.at(Phase::FlushQuote),
            None => self.publishing(),
        }
    }

    /// The error of a PCR that could not be reset because of `e`.
    pub open spec fn reset_fault(self, e: TpmFault) -> TpmFault {
        match e {
            TpmFault::NotImplemented(_) => e,
            _ => TpmFault::Internal(
                "PCR "@ + self.pcr()
                    + " could not be reset, so repeated measurements would not be deterministic: "@
                    + e.shown(),
            ),
        }
    }

    /// The error of the blob `name` that could not be read, or that is empty.
    pub open spec fn blob_fault(self, name: Seq<char>, blob: Result<Seq<u8>, Seq<char>>) -> Option<
        TpmFault,
    > {
        match blob {
            Err(reason) => Some(
                TpmFault::Internal(self.file(name) + " cannot be read: "@ + reason),
            ),
            Ok(bytes) => if bytes.len() == 0 {
                Some(
                    TpmFault::Internal(
                        self.file(name) + " is empty; the TPM did not produce any data"@,
                    ),
                )
            } else {
                None
            },
        }
    }

    /// The session after a command, given its output or its error.
    pub open spec fn after_command(self, result: Result<Seq<char>, TpmFault>) -> SessionModel {
        match (self.phase, result) {
            // `TPM2_Startup` on a started TPM fails; only a TPM that is not
            // there at all ends the session.
            (Phase::Startup, Err(TpmFault::NotImplemented(reason))) => self.failed(
                TpmFault::NotImplemented(reason),
            ),
            (Phase::Startup, _) => self.at(Phase::Reset),
            (Phase::Reset, Ok(_)) => self.at(Phase::Extend),
            (Phase::Reset, Err(e)) => self.failed(self.reset_fault(e)),
            (Phase::Extend, Ok(_)) => match command::scratch_fault(self.scratch, "pcr.bin"@) {
                Some(e) => self.failed(e),
                None => self.at(Phase::PcrRead),
            },
            (Phase::Extend, Err(e)) => self.failed(e),
            (Phase::PcrRead, Ok(_)) => self.at(Phase::PcrFile),
            (Phase::PcrRead, Err(e)) => self.failed(e),
            (Phase::GetCap, Ok(output)) => if command::lists_handle(output, self.config.ak_handle) {
                self.keyed()
            } else {
                self.at(Phase::FlushEk)
            },
            (Phase::GetCap, Err(e)) => self.keyless(e),
            (Phase::FlushEk, _) => self.at(Phase::CreateEk),
            (Phase::CreateEk, Ok(_)) => self.at(Phase::FlushAk),
            (Phase::CreateEk, Err(e)) => self.keyless(e),
            (Phase::FlushAk, _) => self.at(Phase::CreateAk),
            (Phase::CreateAk, Ok(_)) => self.at(Phase::FlushEvict),
            (Phase::CreateAk, Err(e)) => self.keyless(e),
            (Phase::FlushEvict, _) => self.at(Phase::Evict),
            (Phase::Evict, Ok(_)) => self.at(Phase::FlushDone),
            (Phase::Evict, Err(e)) => self.keyless(e),
            (Phase::FlushDone, _) => self.keyed(),
            (Phase::FlushQuote, _) => self.at(Phase::Quote),
            (Phase::Quote, Ok(_)) => self.at(Phase::SignatureFile),
            (Phase::Quote, Err(e)) => self.failed(e),
            (Phase::FlushPublic, _) => self.at(Phase::ReadPublic),
            (Phase::ReadPublic, Ok(_)) => self.at(Phase::PemFile),
            (Phase::ReadPublic, Err(_)) => self.finished(None),
            _ => self,
        }
    }

    /// The session after a file was read.
    pub open spec fn after_file(self, file: Result<Seq<u8>, Seq<char>>) -> SessionModel {
        match self.phase {
            Phase::PcrFile => match file {
                Err(reason) => self.failed(
                    TpmFault::Internal(
                        "PCR "@ + self.pcr() + " output cannot be read: "@ + reason,
                    ),
                ),
                Ok(bytes) => if bytes.len() == 0 {
                    self.failed(
                        TpmFault::Internal("PCR "@ + self.pcr() + " read returned no data"@),
                    )
                } else {
                    SessionModel {
                        phase: Phase::GetCap,
                        pcr_value: encoding::hex_text(bytes),
                        ..self
                    }
                },
            },
            Phase::SignatureFile => match self.blob_fault("quote.sig"@, file) {
                Some(e) => self.failed(e),
                None => SessionModel {
                    phase: Phase::MessageFile,
                    signature: file->Ok_0,
                    ..self
                },
            },
            Phase::MessageFile => match self.blob_fault("quote.msg"@, file) {
                Some(e) => self.failed(e),
                None => SessionModel { phase: Phase::PcrsFile, message: file->Ok_0, ..self },
            },
            Phase::PcrsFile => match self.blob_fault("quote.pcrs"@, file) {
                Some(e) => self.failed(e),
                None => (SessionModel { pcrs: file->Ok_0, ..self }).publishing(),
            },
            _ => self,
        }
    }

    /// The session after an event that it awaits.
    pub open spec fn next(self, event: EventModel) -> SessionModel {
        match event {
            EventModel::Measured(scan) => match scan.outcome() {
                Ok(folder) => SessionModel {
                    phase: Phase::Startup,
                    folder: Some(folder),
                    ..self
                },
                Err(e) => self.failed(e),
            },
            EventModel::Ran(outcome) => self.after_command(
                command::command_result(self.config, self.subcommand(), outcome),
            ),
            EventModel::File(file) => self.after_file(file),
            EventModel::Text(Ok(text)) => self.finished(Some(text)),
            EventModel::Text(Err(_)) => self.finished(None),
        }
    }
}

// ---------------------------------------------------------------------------
// Sessions
// ---------------------------------------------------------------------------

/// A request against the TPM in progress.
#[derive(Debug)]
pub struct Session {
    config: TpmConfig,
    scratch: Scratch,
    nonce: Option<String>,
    cached: Option<String>,
    phase: Phase,
    folder: Option<FolderMeasurement>,
    pcr_value: String,
    signature: Vec<u8>,
    message: Vec<u8>,
    pcrs: Vec<u8>,
    pem: Option<String>,
    error: Option<TpmError>,
}

impl View for Session {
    type V = SessionModel;

    closed spec fn view(&self) -> SessionModel {
        SessionModel {
            config: self.config@,
            scratch: self.scratch@,
            nonce: text::optional_view(self.nonce),
            cached: text::optional_view(self.cached),
            phase: self.phase,
            folder: match self.folder {
                Some(folder) => Some(folder@),
                None => None,
            },
            pcr_value: self.pcr_value@,
            signature: self.signature@,
            message: self.message@,
            pcrs: self.pcrs@,
            pem: text::optional_view(self.pem),
            error: match self.error {
                Some(e) => Some(e@),
                None => None,
            },
        }
    }
}

impl Session {
    /// The invariant of a session.
    pub closed spec fn well_formed(&self) -> bool {
        &&& self.phase == Phase::Measure || self.phase == Phase::Failed || self.folder is Some
        &&& (self.phase == Phase::Failed <==> self.error is Some)
        &&& self@.nonce matches Some(nonce) ==> nonce::nonce_refusal(nonce) is None
            && nonce == nonce::canonical_nonce(nonce)
        &&& encoding::is_encodable(self.signature@)
        &&& encoding::is_encodable(self.message@)
        &&& encoding::is_encodable(self.pcrs@)
    }

    /// Starts a session that gives information, without a quote.
    pub fn information(state: &TpmState, scratch: Scratch) -> (r: Self)
        ensures
            r.well_formed(),
            r@ == session_start(state@, scratch@, None),
    {
        Session::start(state, scratch, None)
    }

    /// Starts a session that quotes the PCR, bound to `nonce_hex`.
    ///
    /// # Errors
    ///
    /// [`TpmError::InvalidInput`] when `nonce_hex` is not a usable challenge.
    pub fn quote(state: &TpmState, nonce_hex: &str, scratch: Scratch) -> (r: Result<
        Self,
        TpmError,
    >)
        ensures
            match r {
                Ok(session) => {
                    &&& session.well_formed()
                    &&& nonce::nonce_refusal(nonce_hex@) is None
                    &&& session@ == session_start(
                        state@,
                        scratch@,
                        Some(nonce::canonical_nonce(nonce_hex@)),
                    )
                },
                Err(e) => nonce::nonce_refusal(nonce_hex@) matches Some(why) && e@
                    == TpmFault::InvalidInput(why),
            },
    {
        match nonce::normalize_nonce(nonce_hex) {
            Ok((nonce, _)) => {
                proof {
                    nonce::law_normalize_nonce_is_idempotent(nonce_hex@);
                }
                Ok(Session::start(state, scratch, Some(nonce)))
            },
            Err(e) => Err(e),
        }
    }

    /// Starts a session.
    fn start(state: &TpmState, scratch: Scratch, nonce: Option<String>) -> (r: Self)
        requires
            nonce matches Some(n) ==> nonce::nonce_refusal(n@) is None && n@
                == nonce::canonical_nonce(n@),
        ensures
            r.well_formed(),
            r@ == session_start(state@, scratch@, text::optional_view(nonce)),
    {
        let r = Session {
            config: state.config.copy(),
            scratch,
            nonce,
            cached: text::copy_optional(&state.ak_pubkey),
            phase: Phase::Measure,
            folder: None,
            pcr_value: String::new(),
            signature: Vec::new(),
            message: Vec::new(),
            pcrs: Vec::new(),
            pem: None,
            error: None,
        };
        assert(r@ =~= session_start(state@, scratch@, text::optional_view(nonce)));
        r
    }

    /// The subcommand that the current phase runs.
    fn subcommand(&self) -> (r: &'static str)
        ensures
            r@ == self@.subcommand(),
    {
        match self.phase {
            Phase::Startup => "startup",
            Phase::Reset => "pcrreset",
            Phase::Extend => "pcrextend",
            Phase::PcrRead => "pcrread",
            Phase::GetCap => "getcap",
            Phase::CreateEk => "createek",
            Phase::CreateAk => "createak",
            Phase::Evict => "evictcontrol",
            Phase::Quote => "quote",
            Phase::ReadPublic => "readpublic",
            _ => "flushcontext",
        }
    }

    /// `PCR:BANK=DIGEST` - what the PCR is extended with.
    fn extension(&self) -> (r: String)
        requires
            self.well_formed(),
        ensures
            r@ == self@.pcr() + ":"@ + self@.config.hash_algorithm + "="@ + self@.digest(),
    {
        let mut out = text::decimal(self.config.pcr_index as u128);
        out.append(":");
        out.append(self.config.hash_algorithm.as_str());
        out.append("=");
        match &self.folder {
            Some(folder) => {
                out.append(folder.total_hash.as_str());
            },
            None => {
                assert(out@ + Seq::<char>::empty() == out@);
            },
        }
        out
    }

    /// The challenge to quote.
    fn challenge(&self) -> (r: String)
        ensures
            r@ == self@.challenge(),
    {
        match &self.nonce {
            Some(nonce) => nonce.clone(),
            None => String::new(),
        }
    }

    /// The arguments of the subcommand that the current phase runs.
    fn arguments(&self) -> (r: Vec<String>)
        requires
            self.well_formed(),
        ensures
            text::views(r@) == self@.arguments(),
    {
        let handle = self.config.ak_handle.clone();
        let r: Vec<String> = match self.phase {
            Phase::Startup => vec!["-c".to_string()],
            Phase::Reset => vec![text::decimal(self.config.pcr_index as u128)],
            Phase::Extend => vec![self.extension()],
            Phase::PcrRead => vec![
                self.config.pcr_selection(),
                "-o".to_string(),
                self.scratch.path("pcr.bin"),
            ],
            Phase::GetCap => vec!["handles-persistent".to_string()],
            Phase::CreateEk => vec![
                "-G".to_string(),
                "rsa".to_string(),
                "-c".to_string(),
                self.scratch.path("ek.ctx"),
                "-u".to_string(),
                self.scratch.path("ek.pub"),
            ],
            Phase::CreateAk => vec![
                "-C".to_string(),
                self.scratch.path("ek.ctx"),
                "-c".to_string(),
                self.scratch.path("ak.ctx"),
                "-G".to_string(),
                "rsa".to_string(),
                "-g".to_string(),
                "sha256".to_string(),
                "-s".to_string(),
                "rsassa".to_string(),
                "-u".to_string(),
                self.scratch.path("ak.pub"),
            ],
            Phase::Evict => vec![
                "-C".to_string(),
                "o".to_string(),
                "-c".to_string(),
                self.scratch.path("ak.ctx"),
                handle,
            ],
            Phase::Quote => vec![
                "-c".to_string(),
                handle,
                "-g".to_string(),
                self.config.hash_algorithm.clone(),
                "-l".to_string(),
                self.config.pcr_selection(),
                "-q".to_string(),
                self.challenge(),
                "-s".to_string(),
                self.scratch.path("quote.sig"),
                "-m".to_string(),
                self.scratch.path("quote.msg"),
                "-o".to_string(),
                self.scratch.path("quote.pcrs"),
            ],
            Phase::ReadPublic => vec![
                "-c".to_string(),
                handle,
                "-o".to_string(),
                self.scratch.path("ak.pem"),
                "-f".to_string(),
                "pem".to_string(),
            ],
            _ => vec!["-t".to_string()],
        };
        assert(text::views(r@) =~= self@.arguments());
        r
    }

    /// What the session waits for.
    pub fn step(&self) -> (r: Step)
        requires
            self.well_formed(),
        ensures
            r@ == self@.step(),
    {
        match self.phase {
            Phase::Measure => {
                Step::Measure(paths::copy_bytes(self.config.measure_dir.as_slice()))
            },
            Phase::PcrFile => Step::ReadFile(self.scratch.path("pcr.bin")),
            Phase::SignatureFile => Step::ReadFile(self.scratch.path("quote.sig")),
            Phase::MessageFile => Step::ReadFile(self.scratch.path("quote.msg")),
            Phase::PcrsFile => Step::ReadFile(self.scratch.path("quote.pcrs")),
            Phase::PemFile => Step::ReadText(self.scratch.path("ak.pem")),
            Phase::Done => Step::Finished,
            Phase::Failed => Step::Finished,
            _ => {
                let mut args = self.arguments();
                let ghost before = args@;
                let tcti = command::tcti_argument(&self.config);
                args.push(tcti);
                assert(text::views(args@) =~= text::views(before).push(tcti@));
                Step::Run { binary: command::binary(self.subcommand()), args }
            },
        }
    }

    /// Gives the session up.
    fn fail(&mut self, e: TpmError)
        requires
            old(self).well_formed(),
        ensures
            final(self).well_formed(),
            final(self)@ == old(self)@.failed(e@),
    {
        self.phase = Phase::Failed;
        self.error = Some(e);
    }

    /// Finishes the session, with the public key if it is known.
    fn finish(&mut self, pem: Option<String>)
        requires
            old(self).well_formed(),
            old(self)@.error is None,
            old(self)@.folder is Some,
        ensures
            final(self).well_formed(),
            final(self)@ == old(self)@.finished(text::optional_view(pem)),
    {
        self.phase = Phase::Done;
        self.pem = pem;
    }

    /// Goes on without a usable Attestation Key.
    fn go_on_keyless(&mut self, e: TpmError)
        requires
            old(self).well_formed(),
            old(self)@.error is None,
            old(self)@.folder is Some,
        ensures
            final(self).well_formed(),
            final(self)@ == old(self)@.keyless(e@),
    {
        match &self.nonce {
            Some(_) => {
                self.fail(e);
            },
            None => {
                self.finish(None);
            },
        }
    }

    /// Goes on to the public part of the Attestation Key, which is read once.
    fn go_on_publishing(&mut self)
        requires
            old(self).well_formed(),
            old(self)@.error is None,
            old(self)@.folder is Some,
        ensures
            final(self).well_formed(),
            final(self)@ == old(self)@.publishing(),
    {
        let cached = text::copy_optional(&self.cached);
        match cached {
            Some(_) => {
                self.finish(cached);
            },
            None => {
                self.phase = Phase::FlushPublic;
            },
        }
    }

    /// Goes on with a usable Attestation Key.
    fn go_on_keyed(&mut self)
        requires
            old(self).well_formed(),
            old(self)@.error is None,
            old(self)@.folder is Some,
        ensures
            final(self).well_formed(),
            final(self)@ == old(self)@.keyed(),
    {
        match &self.nonce {
            Some(_) => {
                self.phase = Phase::FlushQuote;
            },
            None => {
                self.go_on_publishing();
            },
        }
    }

    /// The error of a PCR that could not be reset because of `e`.
    fn reset_error(&self, e: TpmError) -> (r: TpmError)
        ensures
            r@ == self@.reset_fault(e@),
    {
        match e {
            TpmError::NotImplemented(reason) => TpmError::NotImplemented(reason),
            other => {
                let mut message = "PCR ".to_string();
                message.append(text::decimal(self.config.pcr_index as u128).as_str());
                message.append(
                    " could not be reset, so repeated measurements would not be deterministic: ",
                );
                message.append(other.to_string().as_str());
                TpmError::Internal(message)
            },
        }
    }

    /// Takes the result of the command that the current phase runs.
    fn after_command(&mut self, result: Result<String, TpmError>)
        requires
            old(self).well_formed(),
            old(self)@.step() is Run,
        ensures
            final(self).well_formed(),
            final(self)@ == old(self)@.after_command(
                match result {
                    Ok(output) => Ok(output@),
                    Err(e) => Err(e@),
                },
            ),
    {
        match (self.phase, result) {
            (Phase::Startup, Err(TpmError::NotImplemented(reason))) => {
                self.fail(TpmError::NotImplemented(reason));
            },
            (Phase::Startup, _) => {
                self.phase = Phase::Reset;
            },
            (Phase::Reset, Ok(_)) => {
                self.phase = Phase::Extend;
            },
            (Phase::Reset, Err(e)) => {
                let wrapped = self.reset_error(e);
                self.fail(wrapped);
            },
            (Phase::Extend, Ok(_)) => {
                // Every file of the session lies in the scratch directory, so
                // whether its path can be handed to a program is decided here.
                match self.scratch.arg("pcr.bin") {
                    Ok(_) => {
                        self.phase = Phase::PcrRead;
                    },
                    Err(e) => {
                        self.fail(e);
                    },
                }
            },
            (Phase::PcrRead, Ok(_)) => {
                self.phase = Phase::PcrFile;
            },
            (Phase::GetCap, Ok(output)) => {
                if command::handle_present(output.as_str(), self.config.ak_handle.as_str()) {
                    self.go_on_keyed();
                } else {
                    self.phase = Phase::FlushEk;
                }
            },
            (Phase::GetCap, Err(e)) => {
                self.go_on_keyless(e);
            },
            (Phase::FlushEk, _) => {
                self.phase = Phase::CreateEk;
            },
            (Phase::CreateEk, Ok(_)) => {
                self.phase = Phase::FlushAk;
            },
            (Phase::CreateEk, Err(e)) => {
                self.go_on_keyless(e);
            },
            (Phase::FlushAk, _) => {
                self.phase = Phase::CreateAk;
            },
            (Phase::CreateAk, Ok(_)) => {
                self.phase = Phase::FlushEvict;
            },
            (Phase::CreateAk, Err(e)) => {
                self.go_on_keyless(e);
            },
            (Phase::FlushEvict, _) => {
                self.phase = Phase::Evict;
            },
            (Phase::Evict, Ok(_)) => {
                self.phase = Phase::FlushDone;
            },
            (Phase::Evict, Err(e)) => {
                self.go_on_keyless(e);
            },
            (Phase::FlushDone, _) => {
                self.go_on_keyed();
            },
            (Phase::FlushQuote, _) => {
                self.phase = Phase::Quote;
            },
            (Phase::Quote, Ok(_)) => {
                self.phase = Phase::SignatureFile;
            },
            (Phase::FlushPublic, _) => {
                self.phase = Phase::ReadPublic;
            },
            (Phase::ReadPublic, Ok(_)) => {
                self.phase = Phase::PemFile;
            },
            (Phase::ReadPublic, Err(_)) => {
                self.finish(None);
            },
            (_, Err(e)) => {
                self.fail(e);
            },
            _ => {},
        }
    }

    /// Takes the file that the PCR was written to.
    fn read_pcr(&mut self, file: Result<Vec<u8>, String>)
        requires
            old(self).well_formed(),
            old(self)@.phase == Phase::PcrFile,
            file matches Ok(bytes) ==> encoding::is_encodable(bytes@),
        ensures
            final(self).well_formed(),
            final(self)@ == old(self)@.after_file(
                match file {
                    Ok(bytes) => Ok(bytes@),
                    Err(reason) => Err(reason@),
                },
            ),
    {
        let mut message = "PCR ".to_string();
        message.append(text::decimal(self.config.pcr_index as u128).as_str());
        match file {
            Err(reason) => {
                message.append(" output cannot be read: ");
                message.append(reason.as_str());
                self.fail(TpmError::Internal(message));
            },
            Ok(bytes) => {
                if bytes.len() == 0 {
                    message.append(" read returned no data");
                    self.fail(TpmError::Internal(message));
                } else {
                    self.pcr_value = encoding::hex_encode(bytes.as_slice());
                    self.phase = Phase::GetCap;
                }
            },
        }
    }

    /// Takes a blob that the TPM produced, or the reason why there is none.
    fn read_blob(&self, name: &str, file: Result<Vec<u8>, String>) -> (r: Result<
        Vec<u8>,
        TpmError,
    >)
        ensures
            match r {
                Ok(bytes) => file == Ok::<Vec<u8>, String>(bytes) && self@.blob_fault(
                    name@,
                    Ok(bytes@),
                ) is None,
                Err(e) => self@.blob_fault(
                    name@,
                    match file {
                        Ok(bytes) => Ok(bytes@),
                        Err(reason) => Err(reason@),
                    },
                ) == Some(e@),
            },
    {
        let mut message = self.scratch.path(name);
        match file {
            Err(reason) => {
                message.append(" cannot be read: ");
                message.append(reason.as_str());
                Err(TpmError::Internal(message))
            },
            Ok(bytes) => {
                if bytes.len() == 0 {
                    message.append(" is empty; the TPM did not produce any data");
                    Err(TpmError::Internal(message))
                } else {
                    Ok(bytes)
                }
            },
        }
    }

    /// Takes the file that the current phase reads.
    fn after_file(&mut self, file: Result<Vec<u8>, String>)
        requires
            old(self).well_formed(),
            old(self)@.step() is ReadFile,
            file matches Ok(bytes) ==> encoding::is_encodable(bytes@),
        ensures
            final(self).well_formed(),
            final(self)@ == old(self)@.after_file(
                match file {
                    Ok(bytes) => Ok(bytes@),
                    Err(reason) => Err(reason@),
                },
            ),
    {
        match self.phase {
            Phase::SignatureFile => match self.read_blob("quote.sig", file) {
                Ok(bytes) => {
                    self.signature = bytes;
                    self.phase = Phase::MessageFile;
                },
                Err(e) => {
                    self.fail(e);
                },
            },
            Phase::MessageFile => match self.read_blob("quote.msg", file) {
                Ok(bytes) => {
                    self.message = bytes;
                    self.phase = Phase::PcrsFile;
                },
                Err(e) => {
                    self.fail(e);
                },
            },
            Phase::PcrsFile => match self.read_blob("quote.pcrs", file) {
                Ok(bytes) => {
                    self.pcrs = bytes;
                    self.go_on_publishing();
                },
                Err(e) => {
                    self.fail(e);
                },
            },
            _ => {
                self.read_pcr(file);
            },
        }
    }

    /// Takes the outcome of what the session waits for.
    ///
    /// A file must be small enough for its encoded form to fit one allocation,
    /// and the list of measured files must be within what SHA-256 can take.
    pub fn event(&mut self, event: Event)
        requires
            old(self).well_formed(),
            old(self)@.awaits(event@),
            event matches Event::File(Ok(bytes)) ==> encoding::is_encodable(bytes@),
            event matches Event::Measured(scan) ==> scan.well_formed() && measure::total_bytes(
                scan@.measured,
            ).len() <= encoding::SHA256_LIMIT,
        ensures
            final(self).well_formed(),
            final(self)@ == old(self)@.next(event@),
            event matches Event::Measured(scan) ==> scan@.outcome() is Ok
                ==> measure::measured_well(scan@),
            event matches Event::Ran(outcome) ==> command::read_as_text(outcome),
    {
        match event {
            Event::Measured(scan) => match measure::measure_folder(scan) {
                Ok(folder) => {
                    self.folder = Some(folder);
                    self.phase = Phase::Startup;
                },
                Err(e) => {
                    self.fail(e);
                },
            },
            Event::Ran(outcome) => {
                let result = command::tpm2(&self.config, self.subcommand(), outcome);
                self.after_command(result);
            },
            Event::File(file) => {
                self.after_file(file);
            },
            Event::Text(Ok(text)) => {
                self.finish(Some(text));
            },
            Event::Text(Err(_)) => {
                self.finish(None);
            },
        }
    }
}

// ---------------------------------------------------------------------------
// Responses
// ---------------------------------------------------------------------------

/// The three blobs of a quote joined by colons.
pub open spec fn quote_text(signature: Seq<u8>, message: Seq<u8>, pcrs: Seq<u8>) -> Seq<char> {
    encoding::blob_text(signature) + ":"@ + encoding::blob_text(message) + ":"@ + encoding::blob_text(pcrs)
}

/// Whether `evidence` is the quote that the session obtained.
pub open spec fn evidence_of(session: SessionModel, evidence: TpmEvidence) -> bool {
    &&& evidence.quote@ == quote_text(session.signature, session.message, session.pcrs)
    &&& evidence.quote_size == encode_utf8(evidence.quote@).len()
    &&& evidence.signature@ == encoding::blob_text(session.signature)
    &&& evidence.message@ == encoding::blob_text(session.message)
    &&& evidence.pcrs@ == encoding::blob_text(session.pcrs)
    &&& evidence.signature_size == session.signature.len()
    &&& evidence.message_size == session.message.len()
    &&& evidence.nonce@ == session.challenge()
    &&& evidence.nonce_size == nonce::nonce_bytes(session.challenge()).len()
    &&& evidence.pcr_index == session.config.pcr_index
    &&& evidence.hash_algorithm@ == session.config.hash_algorithm
    &&& evidence.ak_handle@ == session.config.ak_handle
}

/// Whether `response` is what a finished session tells, `seconds` after the
/// Unix epoch.
pub open spec fn information_of(
    session: SessionModel,
    seconds: nat,
    response: InformationTpmResponse,
) -> bool {
    &&& session.folder matches Some(folder)
    &&& response.backend@ == BACKEND_NAME@
    &&& response.simulator@ == encoding::lossy_text(session.config.simulator_dir)
    &&& response.tcti@ == session.config.tcti
    &&& response.measured_directory@ == folder.directory
    &&& response.hash_algorithm@ == folder.hash_algorithm
    &&& response.pcr_index == session.config.pcr_index
    &&& payload::stamped(folder, seconds, response.measurement)
    &&& response.pcr_value@ == session.pcr_value
    &&& response.ak_handle@ == session.config.ak_handle
    &&& text::optional_view(response.ak_pubkey) == session.pem
}

/// Whether `response` is the quote that a finished session obtained, `seconds`
/// after the Unix epoch.
pub open spec fn quote_of(session: SessionModel, seconds: nat, response: QuoteTpmResponse) -> bool {
    &&& session.folder matches Some(folder)
    &&& response.status == RC_SUCCESS
    &&& payload::stamped(folder, seconds, response.measurement)
    &&& response.pcr_value@ == session.pcr_value
    &&& response.pcr_index == session.config.pcr_index
    &&& response.hash_algorithm@ == session.config.hash_algorithm
    &&& evidence_of(session, response.evidence.tpm)
    &&& response.ak_pubkey@ == match session.pem {
        Some(pem) => pem,
        None => Seq::empty(),
    }
}

/// `GET /information_tpm` backend logic: what a finished session tells.
///
/// The session has measured the configured directory, extended the configured
/// PCR with the folder digest and read the PCR back. The Attestation Key public
/// part is attached on a best effort basis, and remembered.
///
/// # Errors
///
/// * [`TpmError::NotImplemented`] - the simulator is not reachable.
/// * [`TpmError::Internal`] - the measurement or a PCR operation failed.
pub fn information_tpm(state: &mut TpmState, session: Session, seconds: u64) -> (r: Result<
    InformationTpmResponse,
    TpmError,
>)
    requires
        session.well_formed(),
        session@.step() is Finished,
        session@.nonce is None,
    ensures
        final(state)@ == old(state)@.after(session@.pem),
        match r {
            Ok(response) => {
                &&& session@.phase == Phase::Done
                &&& information_of(session@, seconds as nat, response)
                &&& valid_utf8(session@.config.simulator_dir) ==> response.simulator@
                    == decode_utf8(session@.config.simulator_dir)
            },
            Err(e) => session@.phase == Phase::Failed && session@.error == Some(e@),
        },
{
    state.remember(&session.pem);
    match (session.error, session.folder) {
        (Some(e), _) => Err(e),
        (None, None) => vstd::pervasive::unreached(),
        (None, Some(folder)) => Ok(
            InformationTpmResponse {
                backend: BACKEND_NAME.to_string(),
                simulator: encoding::lossy_string(session.config.simulator_dir.as_slice()),
                tcti: session.config.tcti,
                measured_directory: folder.directory.clone(),
                hash_algorithm: folder.hash_algorithm.clone(),
                pcr_index: session.config.pcr_index,
                measurement: folder.as_tpm_measurement(seconds),
                pcr_value: session.pcr_value,
                ak_handle: session.config.ak_handle,
                ak_pubkey: session.pem,
            },
        ),
    }
}

/// The evidence that a finished session obtained.
fn create_quote(session: &Session) -> (r: TpmEvidence)
    requires
        session.well_formed(),
    ensures
        evidence_of(session@, r),
{
    let signature = encoding::encode_blob(session.signature.as_slice());
    let message = encoding::encode_blob(session.message.as_slice());
    let pcrs = encoding::encode_blob(session.pcrs.as_slice());
    let mut quote = signature.clone();
    quote.append(":");
    quote.append(message.as_str());
    quote.append(":");
    quote.append(pcrs.as_str());
    let nonce = session.challenge();
    let nonce_size: usize = match nonce::normalize_nonce(nonce.as_str()) {
        Ok((_, size)) => size,
        Err(_) => 0,
    };
    TpmEvidence {
        quote_size: quote.as_str().as_bytes().len(),
        quote,
        signature,
        message,
        pcrs,
        signature_size: session.signature.len(),
        message_size: session.message.len(),
        nonce,
        nonce_size,
        pcr_index: session.config.pcr_index,
        hash_algorithm: session.config.hash_algorithm.clone(),
        ak_handle: session.config.ak_handle.clone(),
    }
}

/// `POST /quote_tpm` backend logic: the quote that a finished session obtained.
///
/// The session has run the same reset/measure/extend/read cycle as for
/// [`information_tpm`] and then asked the TPM for a quote over the same PCR,
/// with the challenge bound as `qualifyingData`.
///
/// # Errors
///
/// * [`TpmError::NotImplemented`] - the simulator is not reachable.
/// * [`TpmError::Internal`] - the measurement, a PCR operation or the quote
///   failed.
pub fn quote_tpm(state: &mut TpmState, session: Session, seconds: u64) -> (r: Result<
    QuoteTpmResponse,
    TpmError,
>)
    requires
        session.well_formed(),
        session@.step() is Finished,
        session@.nonce is Some,
    ensures
        final(state)@ == old(state)@.after(session@.pem),
        match r {
            Ok(response) => session@.phase == Phase::Done && quote_of(
                session@,
                seconds as nat,
                response,
            ),
            Err(e) => session@.phase == Phase::Failed && session@.error == Some(e@),
        },
{
    state.remember(&session.pem);
    let evidence = create_quote(&session);
    match (session.error, session.folder) {
        (Some(e), _) => Err(e),
        (None, None) => vstd::pervasive::unreached(),
        (None, Some(folder)) => Ok(
            QuoteTpmResponse {
                status: RC_SUCCESS,
                measurement: folder.as_tpm_measurement(seconds),
                pcr_value: session.pcr_value,
                pcr_index: session.config.pcr_index,
                hash_algorithm: session.config.hash_algorithm,
                evidence: QuoteEvidence { tpm: evidence },
                ak_pubkey: match session.pem {
                    Some(pem) => pem,
                    None => String::new(),
                },
            },
        ),
    }
}

// ---------------------------------------------------------------------------
// Laws
// ---------------------------------------------------------------------------

/// Whether a step runs `binary` with `args`, addressed to the configured TPM.
pub open spec fn runs(
    session: SessionModel,
    phase: Phase,
    binary: Seq<char>,
    args: Seq<Seq<char>>,
) -> bool {
    session.at(phase).step() == (StepModel::Run {
        binary,
        args: args.push("--tcti="@ + session.config.tcti),
    })
}

/// The names of the programs.
proof fn lemma_program_names()
    ensures
        command::binary_name("startup"@) == "tpm2_startup"@,
        command::binary_name("pcrreset"@) == "tpm2_pcrreset"@,
        command::binary_name("pcrextend"@) == "tpm2_pcrextend"@,
        command::binary_name("pcrread"@) == "tpm2_pcrread"@,
        command::binary_name("getcap"@) == "tpm2_getcap"@,
        command::binary_name("createek"@) == "tpm2_createek"@,
        command::binary_name("createak"@) == "tpm2_createak"@,
        command::binary_name("evictcontrol"@) == "tpm2_evictcontrol"@,
        command::binary_name("quote"@) == "tpm2_quote"@,
        command::binary_name("readpublic"@) == "tpm2_readpublic"@,
        command::binary_name("flushcontext"@) == "tpm2_flushcontext"@,
{
    reveal_strlit("tpm2_");
    assert(command::binary_name("startup"@) =~= "tpm2_startup"@) by {
        reveal_strlit("startup");
        reveal_strlit("tpm2_startup");
    }
    assert(command::binary_name("pcrreset"@) =~= "tpm2_pcrreset"@) by {
        reveal_strlit("pcrreset");
        reveal_strlit("tpm2_pcrreset");
    }
    assert(command::binary_name("pcrextend"@) =~= "tpm2_pcrextend"@) by {
        reveal_strlit("pcrextend");
        reveal_strlit("tpm2_pcrextend");
    }
    assert(command::binary_name("pcrread"@) =~= "tpm2_pcrread"@) by {
        reveal_strlit("pcrread");
        reveal_strlit("tpm2_pcrread");
    }
    assert(command::binary_name("getcap"@) =~= "tpm2_getcap"@) by {
        reveal_strlit("getcap");
        reveal_strlit("tpm2_getcap");
    }
    assert(command::binary_name("createek"@) =~= "tpm2_createek"@) by {
        reveal_strlit("createek");
        reveal_strlit("tpm2_createek");
    }
    assert(command::binary_name("createak"@) =~= "tpm2_createak"@) by {
        reveal_strlit("createak");
        reveal_strlit("tpm2_createak");
    }
    assert(command::binary_name("evictcontrol"@) =~= "tpm2_evictcontrol"@) by {
        reveal_strlit("evictcontrol");
        reveal_strlit("tpm2_evictcontrol");
    }
    assert(command::binary_name("quote"@) =~= "tpm2_quote"@) by {
        reveal_strlit("quote");
        reveal_strlit("tpm2_quote");
    }
    assert(command::binary_name("readpublic"@) =~= "tpm2_readpublic"@) by {
        reveal_strlit("readpublic");
        reveal_strlit("tpm2_readpublic");
    }
    assert(command::binary_name("flushcontext"@) =~= "tpm2_flushcontext"@) by {
        reveal_strlit("flushcontext");
        reveal_strlit("tpm2_flushcontext");
    }
}

/// The commands to the PCR all name the configured PCR: it is the only argument
/// of the reset, it begins what is extended, and it ends the selection that is
/// read and quoted. The configured bank is extended, read and quoted, and what
/// it is extended with is the digest of the measured folder.
pub proof fn law_pcr_commands_name_the_configured_pcr(session: SessionModel, folder: FolderModel)
    requires
        session.folder == Some(folder),
    ensures
        ({
            let index = text::decimal_text(session.config.pcr_index as nat);
            let bank = session.config.hash_algorithm;
            let dir = session.scratch.dir;
            &&& runs(session, Phase::Startup, "tpm2_startup"@, seq!["-c"@])
            &&& runs(session, Phase::Reset, "tpm2_pcrreset"@, seq![index])
            &&& runs(
                session,
                Phase::Extend,
                "tpm2_pcrextend"@,
                seq![index + ":"@ + bank + "="@ + folder.total_hash],
            )
            &&& runs(
                session,
                Phase::PcrRead,
                "tpm2_pcrread"@,
                seq![bank + ":"@ + index, "-o"@, command::file_path(dir, "pcr.bin"@)],
            )
        }),
{
    lemma_program_names();
}

/// The commands for the Attestation Key: it is looked for among the persistent
/// handles, created under an Endorsement Key of the same session, persisted at
/// the configured handle, and read from there. Transient objects are released
/// with one and the same command.
pub proof fn law_key_commands_use_the_configured_handle(session: SessionModel)
    ensures
        ({
            let dir = session.scratch.dir;
            let handle = session.config.ak_handle;
            &&& runs(session, Phase::GetCap, "tpm2_getcap"@, seq!["handles-persistent"@])
            &&& runs(
                session,
                Phase::CreateEk,
                "tpm2_createek"@,
                seq![
                    "-G"@,
                    "rsa"@,
                    "-c"@,
                    command::file_path(dir, "ek.ctx"@),
                    "-u"@,
                    command::file_path(dir, "ek.pub"@),
                ],
            )
            &&& runs(
                session,
                Phase::CreateAk,
                "tpm2_createak"@,
                seq![
                    "-C"@,
                    command::file_path(dir, "ek.ctx"@),
                    "-c"@,
                    command::file_path(dir, "ak.ctx"@),
                    "-G"@,
                    "rsa"@,
                    "-g"@,
                    "sha256"@,
                    "-s"@,
                    "rsassa"@,
                    "-u"@,
                    command::file_path(dir, "ak.pub"@),
                ],
            )
            &&& runs(
                session,
                Phase::Evict,
                "tpm2_evictcontrol"@,
                seq!["-C"@, "o"@, "-c"@, command::file_path(dir, "ak.ctx"@), handle],
            )
            &&& runs(
                session,
                Phase::ReadPublic,
                "tpm2_readpublic"@,
                seq!["-c"@, handle, "-o"@, command::file_path(dir, "ak.pem"@), "-f"@, "pem"@],
            )
            &&& runs(session, Phase::FlushEk, "tpm2_flushcontext"@, seq!["-t"@])
            &&& runs(session, Phase::FlushAk, "tpm2_flushcontext"@, seq!["-t"@])
            &&& runs(session, Phase::FlushEvict, "tpm2_flushcontext"@, seq!["-t"@])
            &&& runs(session, Phase::FlushDone, "tpm2_flushcontext"@, seq!["-t"@])
            &&& runs(session, Phase::FlushQuote, "tpm2_flushcontext"@, seq!["-t"@])
            &&& runs(session, Phase::FlushPublic, "tpm2_flushcontext"@, seq!["-t"@])
        }),
{
    lemma_program_names();
}

/// The quote is made with the Attestation Key at the configured handle, over the
/// configured PCR of the configured bank, and with the challenge of the session
/// as qualifying data.
pub proof fn law_quote_command_is_bound_to_the_challenge(session: SessionModel, nonce: Seq<char>)
    requires
        session.nonce == Some(nonce),
    ensures
        ({
            let dir = session.scratch.dir;
            let bank = session.config.hash_algorithm;
            runs(
                session,
                Phase::Quote,
                "tpm2_quote"@,
                seq![
                    "-c"@,
                    session.config.ak_handle,
                    "-g"@,
                    bank,
                    "-l"@,
                    bank + ":"@ + text::decimal_text(session.config.pcr_index as nat),
                    "-q"@,
                    nonce,
                    "-s"@,
                    command::file_path(dir, "quote.sig"@),
                    "-m"@,
                    command::file_path(dir, "quote.msg"@),
                    "-o"@,
                    command::file_path(dir, "quote.pcrs"@),
                ],
            )
        }),
{
    lemma_program_names();
}

/// What a session measures and reads: the configured directory, and then the
/// files where the commands before were told to write them. The files of a
/// session do not overwrite one another.
pub proof fn law_files_are_read_where_they_were_written(session: SessionModel)
    ensures
        session.at(Phase::Measure).step() == StepModel::Measure(session.config.measure_dir),
        session.at(Phase::PcrFile).step() == StepModel::ReadFile(
            session.at(Phase::PcrRead).arguments()[2],
        ),
        session.at(Phase::SignatureFile).step() == StepModel::ReadFile(
            session.at(Phase::Quote).arguments()[9],
        ),
        session.at(Phase::MessageFile).step() == StepModel::ReadFile(
            session.at(Phase::Quote).arguments()[11],
        ),
        session.at(Phase::PcrsFile).step() == StepModel::ReadFile(
            session.at(Phase::Quote).arguments()[13],
        ),
        session.at(Phase::PemFile).step() == StepModel::ReadText(
            session.at(Phase::ReadPublic).arguments()[3],
        ),
        session.at(Phase::CreateAk).arguments()[1] == session.at(Phase::CreateEk).arguments()[3],
        session.at(Phase::Evict).arguments()[3] == session.at(Phase::CreateAk).arguments()[3],
        session.at(Phase::Quote).arguments()[9] != session.at(Phase::Quote).arguments()[11],
        session.at(Phase::Quote).arguments()[9] != session.at(Phase::Quote).arguments()[13],
        session.at(Phase::Quote).arguments()[11] != session.at(Phase::Quote).arguments()[13],
        session.at(Phase::Done).step() == StepModel::Finished,
        session.at(Phase::Failed).step() == StepModel::Finished,
{
    reveal_strlit("quote.sig");
    reveal_strlit("quote.msg");
    reveal_strlit("quote.pcrs");
    let dir = session.scratch.dir;
    assert("quote.sig"@[6] == 's' && "quote.msg"@[6] == 'm');
    assert("quote.pcrs"@.len() == 10);
    if command::file_path(dir, "quote.sig"@) == command::file_path(dir, "quote.msg"@) {
        command::law_file_paths_are_different(dir, "quote.sig"@, "quote.msg"@);
    }
    if command::file_path(dir, "quote.sig"@) == command::file_path(dir, "quote.pcrs"@) {
        command::law_file_paths_are_different(dir, "quote.sig"@, "quote.pcrs"@);
    }
    if command::file_path(dir, "quote.msg"@) == command::file_path(dir, "quote.pcrs"@) {
        command::law_file_paths_are_different(dir, "quote.msg"@, "quote.pcrs"@);
    }
}

/// What follows a command that succeeded. A quote asks for the quote once the
/// key is there; information, and a quote that is made, end with the public key,
/// which is read unless it is known.
pub proof fn law_what_follows_success(session: SessionModel, stdout: Vec<u8>)
    requires
        session.step() is Run,
    ensures
        ({
            let next = session.next(EventModel::Ran(CommandOutcome::Succeeded(stdout)));
            let keyed = match (session.nonce, session.cached) {
                (Some(_), _) => next.phase == Phase::FlushQuote,
                (None, Some(pem)) => next.phase == Phase::Done && next.pem == Some(pem),
                (None, None) => next.phase == Phase::FlushPublic,
            };
            &&& next.folder == session.folder
            &&& next.pcr_value == session.pcr_value
            &&& next.signature == session.signature
            &&& next.message == session.message
            &&& next.pcrs == session.pcrs
            &&& match session.phase {
                Phase::Startup => next.phase == Phase::Reset,
                Phase::Reset => next.phase == Phase::Extend,
                Phase::Extend => {
                    &&& session.scratch.escaped is None ==> next.phase == Phase::PcrRead
                    &&& session.scratch.escaped is Some ==> next.phase == Phase::Failed
                        && next.error == command::scratch_fault(session.scratch, "pcr.bin"@)
                },
                Phase::PcrRead => next.phase == Phase::PcrFile,
                Phase::GetCap => if command::lists_handle(
                    encoding::lossy_text(stdout@),
                    session.config.ak_handle,
                ) {
                    keyed
                } else {
                    next.phase == Phase::FlushEk
                },
                Phase::FlushEk => next.phase == Phase::CreateEk,
                Phase::CreateEk => next.phase == Phase::FlushAk,
                Phase::FlushAk => next.phase == Phase::CreateAk,
                Phase::CreateAk => next.phase == Phase::FlushEvict,
                Phase::FlushEvict => next.phase == Phase::Evict,
                Phase::Evict => next.phase == Phase::FlushDone,
                Phase::FlushDone => keyed,
                Phase::FlushQuote => next.phase == Phase::Quote,
                Phase::Quote => next.phase == Phase::SignatureFile,
                Phase::FlushPublic => next.phase == Phase::ReadPublic,
                Phase::ReadPublic => next.phase == Phase::PemFile,
                _ => true,
            }
        }),
{
}

/// What follows a command that failed. A TPM that was started before fails to
/// start, and transient objects need not be there: that is passed over. A PCR
/// that cannot be reset, extended or read ends the session, and so does a quote
/// that cannot be made; the error is that of the command, and the failed reset
/// is explained. Without the key there is no quote, but there is information,
/// and the public key is best effort for both.
pub proof fn law_what_follows_failure(session: SessionModel, outcome: CommandOutcome)
    requires
        session.step() is Run,
        !(outcome is Succeeded),
    ensures
        ({
            let next = session.next(EventModel::Ran(outcome));
            let e = command::command_result(session.config, session.subcommand(), outcome)->Err_0;
            let ended = next.phase == Phase::Failed && next.error == Some(e);
            &&& match session.phase {
                Phase::Startup => if e is NotImplemented {
                    ended
                } else {
                    next.phase == Phase::Reset && next.error == session.error
                },
                Phase::Reset => if e is NotImplemented {
                    ended
                } else {
                    &&& next.phase == Phase::Failed
                    &&& next.error matches Some(TpmFault::Internal(why))
                    &&& text::has_text(why, e.shown())
                    &&& text::has_text(why, text::decimal_text(session.config.pcr_index as nat))
                },
                Phase::Extend => ended,
                Phase::PcrRead => ended,
                Phase::Quote => ended,
                Phase::GetCap | Phase::CreateEk | Phase::CreateAk | Phase::Evict => {
                    if session.nonce is Some {
                        ended
                    } else {
                        next.phase == Phase::Done && next.pem is None && next.error == session.error
                    }
                },
                Phase::ReadPublic => next.phase == Phase::Done && next.pem is None && next.error
                    == session.error,
                _ => next.phase != Phase::Failed && next.error == session.error,
            }
        }),
{
    let e = command::command_result(session.config, session.subcommand(), outcome)->Err_0;
    let none = Seq::<char>::empty();
    let middle = " could not be reset, so repeated measurements would not be deterministic: "@;
    let index = session.pcr();
    let why = "PCR "@ + index + middle + e.shown();
    text::law_occurrence_is_being_part(why, e.shown());
    text::law_occurrence_is_being_part(why, index);
    assert(("PCR "@ + index + middle) + e.shown() + none == why);
    assert("PCR "@ + index + (middle + e.shown()) == why);
}

/// What follows a file. The PCR value is the contents in hexadecimal, and the
/// three blobs are the contents as they are. A file that cannot be read or is
/// empty ends the session with an internal error, see
/// [`law_complaints_about_files`]. The public key is best effort.
pub proof fn law_what_follows_files(
    session: SessionModel,
    file: Result<Seq<u8>, Seq<char>>,
    pem: Result<Seq<char>, Seq<char>>,
)
    ensures
        ({
            let next = session.next(EventModel::File(file));
            let good = file matches Ok(bytes) && bytes.len() > 0;
            let bytes = file->Ok_0;
            let read = session.step() is ReadFile;
            &&& read && !good ==> next.phase == Phase::Failed && (next.error matches Some(
                TpmFault::Internal(_),
            ))
            &&& session.phase == Phase::PcrFile && good ==> next.phase == Phase::GetCap
                && next.pcr_value == encoding::hex_text(bytes) && next.folder == session.folder
            &&& session.phase == Phase::SignatureFile && good ==> next.phase == Phase::MessageFile
                && next.signature == bytes && next.pcr_value == session.pcr_value && next.folder
                == session.folder
            &&& session.phase == Phase::MessageFile && good ==> next.phase == Phase::PcrsFile
                && next.message == bytes && next.signature == session.signature && next.pcr_value
                == session.pcr_value && next.folder == session.folder
            &&& session.phase == Phase::PcrsFile && good ==> {
                &&& next.pcrs == bytes
                &&& next.message == session.message
                &&& next.signature == session.signature
                &&& next.pcr_value == session.pcr_value
                &&& next.folder == session.folder
                &&& match session.cached {
                    Some(pem) => next.phase == Phase::Done && next.pem == Some(pem),
                    None => next.phase == Phase::FlushPublic,
                }
            }
        }),
        session.phase == Phase::PemFile ==> {
            let next = session.next(EventModel::Text(pem));
            &&& next.phase == Phase::Done
            &&& next.error == session.error
            &&& pem matches Ok(text) ==> next.pem == Some(text)
            &&& pem is Err ==> next.pem is None
        },
{
}

/// What is said of a file that cannot be read or is empty: which PCR was to be
/// read, or which file, and why it cannot be read.
pub proof fn law_complaints_about_files(session: SessionModel, reason: Seq<char>)
    ensures
        ({
            let index = text::decimal_text(session.config.pcr_index as nat);
            let unread = session.next(EventModel::File(Err(reason))).error;
            let empty = session.next(EventModel::File(Ok(Seq::empty()))).error;
            let path = match session.step() {
                StepModel::ReadFile(path) => path,
                _ => Seq::empty(),
            };
            &&& session.phase == Phase::PcrFile ==> {
                &&& unread == Some(
                    TpmFault::Internal("PCR "@ + index + " output cannot be read: "@ + reason),
                )
                &&& empty == Some(TpmFault::Internal("PCR "@ + index + " read returned no data"@))
            }
            &&& session.step() is ReadFile && session.phase != Phase::PcrFile ==> {
                &&& unread == Some(TpmFault::Internal(path + " cannot be read: "@ + reason))
                &&& empty == Some(
                    TpmFault::Internal(path + " is empty; the TPM did not produce any data"@),
                )
            }
        }),
{
}

/// A session takes every outcome of what it waits for: whatever became of a
/// command, a file or a text, and every scan of the configured directory that is
/// finished. Once it is finished, it takes nothing.
pub proof fn law_every_outcome_is_taken(session: SessionModel, event: EventModel)
    ensures
        session.step() is Run ==> (session.awaits(event) <==> event is Ran),
        session.step() is ReadFile ==> (session.awaits(event) <==> event is File),
        session.step() is ReadText ==> (session.awaits(event) <==> event is Text),
        session.step() is Finished ==> !session.awaits(event),
        session.step() is Measure ==> (session.awaits(event) <==> (
        event matches EventModel::Measured(scan) && scan.given == session.config.measure_dir
            && scan.reached() && (scan.stage == measure::Stage::Done || scan.stage
            == measure::Stage::Failed))),
{
}

/// The public key that a session read is remembered, and one that it did not
/// read changes nothing. The configuration stays.
pub proof fn law_the_public_key_is_remembered(state: StateModel, pem: Option<Seq<char>>)
    ensures
        state.after(pem).config == state.config,
        pem is Some ==> state.after(pem).ak_pubkey == pem,
        pem is None ==> state.after(pem).ak_pubkey == state.ak_pubkey,
{
}

/// A session begins with nothing but what it is given: the configuration and the
/// public key that the state has, the challenge, and no measurement.
pub proof fn law_sessions_begin_with_what_they_are_given(
    state: StateModel,
    scratch: ScratchModel,
    nonce: Option<Seq<char>>,
)
    ensures
        ({
            let start = session_start(state, scratch, nonce);
            &&& start.config == state.config
            &&& start.scratch == scratch
            &&& start.nonce == nonce
            &&& start.cached == state.ak_pubkey
            &&& start.phase == Phase::Measure
            &&& start.folder is None
            &&& start.pem is None
            &&& start.error is None
        }),
{
}

} // verus!
