//! TPM sessions, against a stand-in for tpm2-tools.

use base64::engine::general_purpose::STANDARD;
use base64::Engine;
use sha2::{Digest, Sha256};

use tdx_attestation_server::tpm::{
    information_tpm, quote_tpm, CommandOutcome, Event, FileKind, FolderScan,
    InformationTpmResponse, QuoteTpmResponse, ScanAnswer, Scratch, Session, Step, TpmConfig, TpmError, TpmState,
};

const LISTED: &[u8] = b"- 0x81010002\n";
const REACH: &[u8] = b"ERROR: Could not load tcti, got: \"mssim\"";

/// The digest of a folder without files: SHA-256 of nothing.
const DIGEST: &str = "e3b0c44298fc1c149afbf4c8996fb92427ae41e4649b934ca495991b7852b855";

/// A scan of an empty directory, or of one that is not there.
fn scan(dir: &[u8], there: bool) -> FolderScan {
    let mut scan = FolderScan::new(dir);
    if there {
        scan.answer(ScanAnswer::Status(Ok(FileKind::Directory)));
        scan.answer(ScanAnswer::Path(Ok(dir.to_vec())));
        scan.answer(ScanAnswer::Names(Ok(vec![])));
    } else {
        scan.answer(ScanAnswer::Status(Err("gone".to_string())));
    }
    scan
}

/// A TPM that does what it is told, except for `failing` commands, and that
/// writes down what it was asked.
struct Tpm {
    handles: Vec<u8>,
    failing: Vec<(&'static str, Vec<u8>)>,
    missing: bool,
    empty: &'static str,
    unreadable: &'static str,
    no_folder: bool,
    measured: Vec<Vec<u8>>,
    asked: Vec<String>,
}

impl Tpm {
    fn new() -> Self {
        Tpm {
            handles: LISTED.to_vec(),
            failing: vec![],
            missing: false,
            empty: "-",
            unreadable: "-",
            no_folder: false,
            measured: vec![],
            asked: vec![],
        }
    }

    fn failing(mut self, command: &'static str, stderr: &[u8]) -> Self {
        self.failing.push((command, stderr.to_vec()));
        self
    }

    fn run(&mut self, mut session: Session) -> Session {
        loop {
            let event = match session.step() {
                Step::Finished => return session,
                Step::Measure(dir) => {
                    assert!(self.asked.is_empty(), "the folder is measured before any command");
                    let scan = scan(&dir, !self.no_folder);
                    self.measured.push(dir);
                    Event::Measured(scan)
                }
                Step::Run { binary, args } => {
                    self.asked.push(format!("{binary} {}", args.join(" ")));
                    let failure = self.failing.iter().find(|(name, _)| binary == *name);
                    Event::Ran(if self.missing {
                        CommandOutcome::NotFound
                    } else if let Some((_, stderr)) = failure {
                        CommandOutcome::Failed(stderr.clone())
                    } else if binary == "tpm2_getcap" {
                        CommandOutcome::Succeeded(self.handles.clone())
                    } else {
                        CommandOutcome::Succeeded(vec![])
                    })
                }
                Step::ReadFile(path) => {
                    self.asked.push(format!("read {path}"));
                    Event::File(if path.ends_with(self.unreadable) {
                        Err("gone".to_string())
                    } else if path.ends_with(self.empty) {
                        Ok(vec![])
                    } else {
                        Ok(path.as_bytes()[path.len() - 3..].to_vec())
                    })
                }
                Step::ReadText(path) => {
                    self.asked.push(format!("read {path}"));
                    Event::Text(if path.ends_with(self.unreadable) {
                        Err("gone".to_string())
                    } else {
                        Ok("PEM".to_string())
                    })
                }
            };
            session.event(event);
        }
    }
}

fn state() -> TpmState {
    TpmState::new(TpmConfig::default(b"/srv"))
}

fn scratch() -> Scratch {
    Scratch::new("/tmp/s".to_string(), None, Ok(())).unwrap()
}

fn inform(state: &mut TpmState, tpm: &mut Tpm) -> Result<InformationTpmResponse, TpmError> {
    let session = Session::information(state, scratch());
    let session = tpm.run(session);
    information_tpm(state, session, 0)
}

fn quote(state: &mut TpmState, tpm: &mut Tpm, nonce: &str) -> Result<QuoteTpmResponse, TpmError> {
    let session = Session::quote(state, nonce, scratch())?;
    let session = tpm.run(session);
    quote_tpm(state, session, 0)
}

const TCTI: &str = "--tcti=mssim:host=127.0.0.1,port=2321";

#[test]
fn information_is_complete() {
    let (mut state, mut tpm) = (state(), Tpm::new());
    let response = inform(&mut state, &mut tpm).unwrap();
    assert_eq!(response.backend, "tpm2-tools");
    assert_eq!(response.simulator, "tpm-simu");
    assert_eq!(response.tcti, "mssim:host=127.0.0.1,port=2321");
    assert_eq!(response.measured_directory, "/srv/src");
    assert_eq!(response.hash_algorithm, "sha256");
    assert_eq!(response.pcr_index, 16);
    assert_eq!(response.measurement.time_stamp, "1970.01.01 00:00:00");
    assert_eq!(response.measurement.total_hash, DIGEST);
    assert_eq!(response.pcr_value, hex::encode("bin"));
    assert_eq!(response.ak_handle, "0x81010002");
    assert_eq!(response.ak_pubkey, Some("PEM".to_string()));
    assert_eq!(
        tpm.asked,
        vec![
            format!("tpm2_startup -c {TCTI}"),
            format!("tpm2_pcrreset 16 {TCTI}"),
            format!("tpm2_pcrextend 16:sha256={DIGEST} {TCTI}"),
            format!("tpm2_pcrread sha256:16 -o /tmp/s/pcr.bin {TCTI}"),
            "read /tmp/s/pcr.bin".to_string(),
            format!("tpm2_getcap handles-persistent {TCTI}"),
            format!("tpm2_flushcontext -t {TCTI}"),
            format!("tpm2_readpublic -c 0x81010002 -o /tmp/s/ak.pem -f pem {TCTI}"),
            "read /tmp/s/ak.pem".to_string(),
        ]
    );
}

/// The digest of the folder is named by its own algorithm, whatever the bank of
/// the PCR.
#[test]
fn the_hash_algorithm_is_that_of_the_folder() {
    let mut state = TpmState::new(TpmConfig {
        hash_algorithm: "sha384".to_string(),
        ..TpmConfig::default(b"/srv")
    });
    let mut tpm = Tpm::new();
    let response = inform(&mut state, &mut tpm).unwrap();
    assert_eq!(response.hash_algorithm, "sha256");
    assert_eq!(tpm.asked[2], format!("tpm2_pcrextend 16:sha384={DIGEST} {TCTI}"));
    let quoted = quote(&mut state, &mut Tpm::new(), "00").unwrap();
    assert_eq!(quoted.hash_algorithm, "sha384");
    assert_eq!(quoted.evidence.tpm.hash_algorithm, "sha384");
}

/// A PCR that is reset before it is extended holds the same after every
/// session, whatever it held before.
#[test]
fn repeated_measurements_agree() {
    let mut pcr = "whatever it held".to_string();
    let mut seen = vec![];
    for _ in 0..2 {
        let mut session = Session::information(&state(), scratch());
        loop {
            let event = match session.step() {
                Step::Finished => break,
                Step::Measure(dir) => Event::Measured(scan(&dir, true)),
                Step::Run { binary, args } => {
                    if binary == "tpm2_pcrreset" {
                        pcr = "0".to_string();
                    } else if binary == "tpm2_pcrextend" {
                        pcr = format!("H({pcr}|{})", args[0]);
                    }
                    Event::Ran(CommandOutcome::Succeeded(LISTED.to_vec()))
                }
                Step::ReadFile(_) => Event::File(Ok(pcr.clone().into_bytes())),
                Step::ReadText(_) => Event::Text(Ok("PEM".to_string())),
            };
            session.event(event);
        }
        seen.push(information_tpm(&mut state(), session, 0).unwrap().pcr_value);
    }
    assert_eq!(seen[0], hex::encode(format!("H(0|16:sha256={DIGEST})")));
    assert_eq!(seen[0], seen[1]);
}

#[test]
fn a_missing_key_is_created_once() {
    let (mut state, mut tpm) = (state(), Tpm::new());
    tpm.handles = b"- 0x81000000\n".to_vec();
    inform(&mut state, &mut tpm).unwrap();
    assert_eq!(
        tpm.asked[6..13],
        [
            format!("tpm2_flushcontext -t {TCTI}"),
            format!("tpm2_createek -G rsa -c /tmp/s/ek.ctx -u /tmp/s/ek.pub {TCTI}"),
            format!("tpm2_flushcontext -t {TCTI}"),
            format!(
                "tpm2_createak -C /tmp/s/ek.ctx -c /tmp/s/ak.ctx -G rsa -g sha256 -s rsassa \
                 -u /tmp/s/ak.pub {TCTI}"
            ),
            format!("tpm2_flushcontext -t {TCTI}"),
            format!("tpm2_evictcontrol -C o -c /tmp/s/ak.ctx 0x81010002 {TCTI}"),
            format!("tpm2_flushcontext -t {TCTI}"),
        ]
    );
}

#[test]
fn a_quote_is_complete() {
    let (mut state, mut tpm) = (state(), Tpm::new());
    let response = quote(&mut state, &mut tpm, " AAbb ").unwrap();
    let blob = |bytes: &str| STANDARD.encode(hex::encode(bytes));
    assert_eq!(response.status, 0);
    assert_eq!(response.pcr_value, hex::encode("bin"));
    assert_eq!(response.pcr_index, 16);
    assert_eq!(response.hash_algorithm, "sha256");
    assert_eq!(response.ak_pubkey, "PEM");
    let evidence = response.evidence.tpm;
    assert_eq!(evidence.signature, blob("sig"));
    assert_eq!(evidence.message, blob("msg"));
    assert_eq!(evidence.pcrs, blob("crs"));
    assert_eq!(evidence.quote, format!("{}:{}:{}", blob("sig"), blob("msg"), blob("crs")));
    assert_eq!(evidence.quote_size, evidence.quote.len());
    assert_eq!(evidence.signature_size, 3);
    assert_eq!(evidence.message_size, 3);
    assert_eq!(evidence.nonce, "aabb");
    assert_eq!(evidence.nonce_size, 2);
    assert_eq!(evidence.pcr_index, 16);
    assert_eq!(evidence.hash_algorithm, "sha256");
    assert_eq!(evidence.ak_handle, "0x81010002");
    assert_eq!(
        tpm.asked[6..11],
        [
            format!("tpm2_flushcontext -t {TCTI}"),
            format!(
                "tpm2_quote -c 0x81010002 -g sha256 -l sha256:16 -q aabb -s /tmp/s/quote.sig \
                 -m /tmp/s/quote.msg -o /tmp/s/quote.pcrs {TCTI}"
            ),
            "read /tmp/s/quote.sig".to_string(),
            "read /tmp/s/quote.msg".to_string(),
            "read /tmp/s/quote.pcrs".to_string(),
        ]
    );
}

#[test]
fn the_public_key_is_read_once() {
    let (mut state, mut tpm) = (state(), Tpm::new());
    quote(&mut state, &mut tpm, "00").unwrap();
    let mut second = Tpm::new();
    let response = quote(&mut state, &mut second, "00").unwrap();
    assert_eq!(response.ak_pubkey, "PEM");
    assert!(second.asked.iter().all(|line| !line.contains("readpublic")));
    let mut third = Tpm::new();
    assert_eq!(inform(&mut state, &mut third).unwrap().ak_pubkey, Some("PEM".to_string()));
    assert_eq!(third.asked.len(), 6);
    let mut broken = Tpm::new().failing("tpm2_getcap", b"ERROR: x");
    assert_eq!(inform(&mut state, &mut broken).unwrap().ak_pubkey, None);
}

/// The longest session: the key is created, and the public key is read.
#[test]
fn sessions_end() {
    let (mut state, mut tpm) = (state(), Tpm::new());
    tpm.handles = vec![];
    quote(&mut state, &mut tpm, "00").unwrap();
    assert_eq!(tpm.asked.len(), 21);
    let mut commands: Vec<&String> =
        tpm.asked.iter().filter(|line| !line.contains("flushcontext")).collect();
    commands.sort();
    commands.dedup();
    assert_eq!(commands.len(), 15, "no command is issued twice");
}

#[test]
fn unusable_challenges_start_nothing() {
    let err = Session::quote(&state(), "zz", scratch()).unwrap_err();
    assert!(matches!(err, TpmError::InvalidInput(_)));
}

#[test]
fn a_failed_measurement_ends_the_session() {
    let mut state = state();
    let mut tpm = Tpm::new();
    let session = Session::information(&state, scratch());
    tpm.no_folder = true;
    let session = tpm.run(session);
    let err = information_tpm(&mut state, session, 0).unwrap_err();
    assert_eq!(
        err,
        TpmError::Internal("measured directory /srv/src cannot be read: gone".to_string())
    );
    assert!(tpm.asked.is_empty());
}

/// The directory that is measured is the configured one.
#[test]
fn the_configured_directory_is_measured() {
    let mut state = TpmState::new(TpmConfig {
        measure_dir: b"/data/\xc3\xa9".to_vec(),
        simulator_dir: b"/sim/\xc3\xa9".to_vec(),
        ..TpmConfig::default(b"/srv")
    });
    let mut tpm = Tpm::new();
    let response = inform(&mut state, &mut tpm).unwrap();
    assert_eq!(tpm.measured, vec![b"/data/\xc3\xa9".to_vec()]);
    assert_eq!(response.measured_directory, "/data/\u{e9}");
    assert_eq!(response.simulator, "/sim/\u{e9}");
}

/// The PCR is extended by hashing, so its value is no copy of the digest.
#[test]
fn the_pcr_value_is_not_the_folder_digest() {
    let mut pcr = vec![1u8; 32];
    let mut session = Session::information(&state(), scratch());
    loop {
        let event = match session.step() {
            Step::Finished => break,
            Step::Measure(dir) => Event::Measured(scan(&dir, true)),
            Step::Run { binary, args } => {
                if binary == "tpm2_pcrreset" {
                    pcr = vec![0u8; 32];
                } else if binary == "tpm2_pcrextend" {
                    let digest = args[0].split('=').nth(1).unwrap();
                    pcr.extend(hex::decode(digest).unwrap());
                    pcr = Sha256::digest(&pcr).to_vec();
                }
                Event::Ran(CommandOutcome::Succeeded(LISTED.to_vec()))
            }
            Step::ReadFile(_) => Event::File(Ok(pcr.clone())),
            Step::ReadText(_) => Event::Text(Ok("PEM".to_string())),
        };
        session.event(event);
    }
    let response = information_tpm(&mut state(), session, 0).unwrap();
    assert_eq!(response.measurement.total_hash, DIGEST);
    assert_eq!(response.pcr_value.len(), 64);
    assert_ne!(response.pcr_value, DIGEST);
}

#[test]
fn a_missing_tpm_is_reported() {
    let mut tpm = Tpm::new();
    tpm.missing = true;
    let err = inform(&mut state(), &mut tpm).unwrap_err();
    assert!(matches!(err, TpmError::NotImplemented(_)));
    assert_eq!(tpm.asked.len(), 1);

    let mut tpm = Tpm::new().failing("tpm2_startup", REACH);
    let err = inform(&mut state(), &mut tpm).unwrap_err();
    assert!(matches!(err, TpmError::NotImplemented(_)));
}

#[test]
fn a_started_tpm_is_fine() {
    let mut tpm = Tpm::new().failing("tpm2_startup", b"ERROR: 0x100");
    assert!(inform(&mut state(), &mut tpm).is_ok());
    let mut tpm = Tpm::new().failing("tpm2_flushcontext", b"ERROR: nothing to flush");
    assert!(quote(&mut state(), &mut tpm, "00").is_ok());
}

#[test]
fn a_pcr_that_cannot_be_reset_is_never_extended() {
    let mut tpm = Tpm::new().failing("tpm2_pcrreset", b"ERROR: locality");
    let err = inform(&mut state(), &mut tpm).unwrap_err();
    assert_eq!(
        err,
        TpmError::Internal(
            "PCR 16 could not be reset, so repeated measurements would not be deterministic: \
             internal TPM error: `tpm2_pcrreset` failed: ERROR: locality"
                .to_string()
        )
    );
    assert_eq!(tpm.asked.len(), 2);

    let mut tpm = Tpm::new().failing("tpm2_pcrreset", REACH);
    assert!(matches!(inform(&mut state(), &mut tpm), Err(TpmError::NotImplemented(_))));
}

#[test]
fn pcr_failures_end_the_session() {
    for command in ["tpm2_pcrextend", "tpm2_pcrread"] {
        let mut tpm = Tpm::new().failing(command, b"ERROR: no");
        let err = inform(&mut state(), &mut tpm).unwrap_err();
        assert_eq!(err, TpmError::Internal(format!("`{command}` failed: ERROR: no")));
    }
    let mut tpm = Tpm::new();
    tpm.empty = "pcr.bin";
    assert_eq!(
        inform(&mut state(), &mut tpm).unwrap_err(),
        TpmError::Internal("PCR 16 read returned no data".to_string())
    );
    let mut tpm = Tpm::new();
    tpm.unreadable = "pcr.bin";
    assert_eq!(
        inform(&mut state(), &mut tpm).unwrap_err(),
        TpmError::Internal("PCR 16 output cannot be read: gone".to_string())
    );
}

#[test]
fn a_scratch_path_must_be_text() {
    let mut state = state();
    let odd = Scratch::new("/t".to_string(), Some("/t\\xFF".to_string()), Ok(())).unwrap();
    let mut tpm = Tpm::new();
    let session = tpm.run(Session::information(&state, odd));
    assert_eq!(
        information_tpm(&mut state, session, 0).unwrap_err(),
        TpmError::Internal("temporary path \"/t\\xFF/pcr.bin\" is not valid UTF-8".to_string())
    );
    assert_eq!(tpm.asked.len(), 3);
}

#[test]
fn key_failures_end_quotes_only() {
    for command in ["tpm2_getcap", "tpm2_createek", "tpm2_createak", "tpm2_evictcontrol"] {
        let mut tpm = Tpm::new().failing(command, b"ERROR: no");
        tpm.handles = vec![];
        let err = quote(&mut state(), &mut tpm, "00").unwrap_err();
        assert_eq!(err, TpmError::Internal(format!("`{command}` failed: ERROR: no")));

        let mut tpm = Tpm::new().failing(command, b"ERROR: no");
        tpm.handles = vec![];
        assert_eq!(inform(&mut state(), &mut tpm).unwrap().ak_pubkey, None);
    }
}

#[test]
fn quote_failures_end_the_session() {
    let mut tpm = Tpm::new().failing("tpm2_quote", b"ERROR: no");
    assert!(matches!(quote(&mut state(), &mut tpm, "00"), Err(TpmError::Internal(_))));
    for name in ["quote.sig", "quote.msg", "quote.pcrs"] {
        let mut tpm = Tpm::new();
        tpm.empty = name;
        assert_eq!(
            quote(&mut state(), &mut tpm, "00").unwrap_err(),
            TpmError::Internal(format!(
                "/tmp/s/{name} is empty; the TPM did not produce any data"
            ))
        );
        let mut tpm = Tpm::new();
        tpm.unreadable = name;
        assert_eq!(
            quote(&mut state(), &mut tpm, "00").unwrap_err(),
            TpmError::Internal(format!("/tmp/s/{name} cannot be read: gone"))
        );
    }
}

#[test]
fn the_public_key_is_best_effort() {
    let mut tpm = Tpm::new().failing("tpm2_readpublic", b"ERROR: no");
    assert_eq!(quote(&mut state(), &mut tpm, "00").unwrap().ak_pubkey, "");
    let mut tpm = Tpm::new().failing("tpm2_readpublic", b"ERROR: no");
    assert_eq!(inform(&mut state(), &mut tpm).unwrap().ak_pubkey, None);
    let mut tpm = Tpm::new();
    tpm.unreadable = "ak.pem";
    assert_eq!(quote(&mut state(), &mut tpm, "00").unwrap().ak_pubkey, "");
}
