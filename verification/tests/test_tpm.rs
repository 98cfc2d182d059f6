//! Configuration, challenges, command outcomes and timestamps.

use tdx_attestation_server::paths;
use tdx_attestation_server::tpm::command::{binary, classify_text, handle_present, tcti_argument};
use tdx_attestation_server::tpm::{
    challenge_bytes, classify_failure, default_measure_dir, normalize_nonce, tpm2, utc_timestamp,
    CommandOutcome, FolderMeasurement, MeasuredFile, QuoteTpmRequest, Scratch, TpmConfig,
    TpmEnvironment, TpmError, TpmState,
};

#[test]
fn nonce_is_validated() {
    assert!(normalize_nonce("00").is_ok());
    assert!(normalize_nonce("DEADBEEF").is_ok());
    assert_eq!(normalize_nonce("DEADBEEF").unwrap().0, "deadbeef");

    assert!(matches!(normalize_nonce(""), Err(TpmError::InvalidInput(_))));
    assert!(matches!(normalize_nonce("abc"), Err(TpmError::InvalidInput(_))));
    assert!(matches!(normalize_nonce("zz"), Err(TpmError::InvalidInput(_))));
    assert!(matches!(
        normalize_nonce(&"ab".repeat(65)),
        Err(TpmError::InvalidInput(_))
    ));
}

#[test]
fn request_requires_a_challenge() {
    let empty = QuoteTpmRequest::default();
    assert!(matches!(empty.resolved_nonce(), Err(TpmError::InvalidInput(_))));

    let nonce = QuoteTpmRequest {
        nonce: Some("AABB".to_string()),
        ..Default::default()
    };
    assert_eq!(nonce.resolved_nonce().unwrap(), "aabb");

    let challenge = QuoteTpmRequest {
        challenge: Some("ccdd".to_string()),
        ..Default::default()
    };
    assert_eq!(challenge.resolved_nonce().unwrap(), "ccdd");

    let conflicting = QuoteTpmRequest {
        nonce: Some("aa".to_string()),
        challenge: Some("bb".to_string()),
        ..Default::default()
    };
    assert!(matches!(conflicting.resolved_nonce(), Err(TpmError::InvalidInput(_))));
}

#[test]
fn an_unreachable_tpm_is_a_deployment_problem() {
    let config = TpmConfig::default(b"/srv");
    let stderr = b"WARNING:tcti:src/util/io.c:262:socket_connect() Failed to connect to host 127.0.0.1, \
                   port 2321: errno 111: Connection refused\nERROR: Could not load tcti, got: \"mssim\"";

    let err = classify_failure(&config, "tpm2_startup", stderr);
    assert!(
        matches!(err, TpmError::NotImplemented(_)),
        "an unreachable TPM must map to 501, got {err:?}"
    );
    assert!(err.to_string().contains("not reachable"));
}

#[test]
fn a_command_failure_is_an_internal_error() {
    let config = TpmConfig::default(b"/srv");
    let stderr = b"ERROR: Esys_PCR_Extend(0x1C3) - tpm:parameter(1):hash algorithm not supported";

    let err = classify_failure(&config, "tpm2_pcrextend", stderr);
    assert!(
        matches!(err, TpmError::Internal(_)),
        "a rejected command must map to 500, got {err:?}"
    );
}

#[test]
fn the_config_pcr_selection_is_the_tpm2_tools_syntax() {
    let config = TpmConfig {
        pcr_index: 16,
        hash_algorithm: "sha256".to_string(),
        ..TpmConfig::default(b"/srv")
    };
    assert_eq!(config.pcr_selection(), "sha256:16");
}

#[test]
fn timestamp_has_the_gpu_node_shape() {
    let stamp = utc_timestamp(1_790_000_000);
    assert_eq!(stamp.len(), 19, "unexpected timestamp {stamp:?}");
    assert_eq!(&stamp[4..5], ".");
    assert_eq!(&stamp[7..8], ".");
    assert_eq!(&stamp[10..11], " ");
}

#[test]
fn timestamps_are_exact() {
    assert_eq!(utc_timestamp(0), "1970.01.01 00:00:00");
    assert_eq!(utc_timestamp(951_782_399), "2000.02.28 23:59:59");
    assert_eq!(utc_timestamp(951_782_400), "2000.02.29 00:00:00");
    assert_eq!(utc_timestamp(1_789_977_887), "2026.09.21 08:04:47");
    assert_eq!(utc_timestamp(253_402_300_799), "9999.12.31 23:59:59");
    assert_eq!(utc_timestamp(253_402_300_800), "10000.01.01 00:00:00");
}

#[test]
fn refused_nonces_are_explained() {
    let why = |nonce: &str| match normalize_nonce(nonce).unwrap_err() {
        TpmError::InvalidInput(message) => message,
        other => panic!("unexpected {other:?}"),
    };
    assert_eq!(why(""), "the nonce must not be empty");
    assert_eq!(why(" \t"), "the nonce must not be empty");
    assert_eq!(why("abc"), "the nonce must have an even number of hex characters, got 3");
    assert_eq!(why("\u{e9}a"), "the nonce must have an even number of hex characters, got 3");
    assert_eq!(
        why("ab!d"),
        "the nonce is not valid hex: Invalid character '!' at position 2"
    );
    assert_eq!(
        why("\u{e9}"),
        "the nonce is not valid hex: Invalid character '\u{c3}' at position 0"
    );
    assert_eq!(
        why(&"00".repeat(65)),
        "the nonce is 65 bytes, but TPM qualifying data holds at most 64"
    );
}

#[test]
fn nonces_are_canonicalised() {
    assert_eq!(normalize_nonce("  0aFF\n").unwrap(), ("0aff".to_string(), 2));
    assert_eq!(normalize_nonce(&"Ab".repeat(64)).unwrap(), ("ab".repeat(64), 64));
    let (once, _) = normalize_nonce("DeadBeef").unwrap();
    assert_eq!(normalize_nonce(&once).unwrap().0, once);
    assert_eq!(challenge_bytes(" 0A0b").unwrap(), vec![10, 11]);
    assert!(challenge_bytes("0").is_err());
}

#[test]
fn repeated_challenges_may_differ_in_case_and_blanks() {
    let same = QuoteTpmRequest {
        nonce: Some(" AAbb".to_string()),
        challenge: Some("aaBB ".to_string()),
        ..Default::default()
    };
    assert_eq!(same.resolved_nonce().unwrap(), "aabb");

    let why = |request: QuoteTpmRequest| match request.resolved_nonce().unwrap_err() {
        TpmError::InvalidInput(message) => message,
        other => panic!("unexpected {other:?}"),
    };
    assert_eq!(
        why(QuoteTpmRequest::default()),
        "missing required field 'nonce' (alias: 'challenge')"
    );
    assert_eq!(
        why(QuoteTpmRequest {
            nonce: Some("aa".to_string()),
            challenge: Some("bb".to_string()),
            ..Default::default()
        }),
        "'nonce' and 'challenge' are both present but differ"
    );
    assert_eq!(
        why(QuoteTpmRequest { challenge: Some("x".to_string()), ..Default::default() }),
        "the nonce must have an even number of hex characters, got 1"
    );
}

fn environment() -> TpmEnvironment {
    TpmEnvironment {
        measure_dir: None,
        pcr_index: None,
        hash_algorithm: None,
        tcti: None,
        ak_handle: None,
        simulator_dir: None,
    }
}

#[test]
fn defaults_apply_without_an_environment() {
    let config = TpmConfig::from_env(environment(), b"/srv/app");
    assert_eq!(config.measure_dir, b"/srv/app/src".to_vec());
    assert_eq!(config.pcr_index, 16);
    assert_eq!(config.hash_algorithm, "sha256");
    assert_eq!(config.tcti, "mssim:host=127.0.0.1,port=2321");
    assert_eq!(config.ak_handle, "0x81010002");
    assert_eq!(config.simulator_dir, b"tpm-simu".to_vec());
    assert_eq!(config, TpmConfig::default(b"/srv/app"));
    assert_eq!(config.copy(), config);
    assert_eq!(default_measure_dir(b"/srv/"), b"/srv/src".to_vec());
    assert_eq!(default_measure_dir(b""), b"src".to_vec());
}

#[test]
fn the_environment_overrides_defaults() {
    let env = TpmEnvironment {
        measure_dir: Some(b"/opt/\xff".to_vec()),
        pcr_index: Some(" 23\n".to_string()),
        hash_algorithm: Some("sha384".to_string()),
        tcti: Some("device:/dev/tpm0".to_string()),
        ak_handle: Some("0x81010009".to_string()),
        simulator_dir: Some(b"".to_vec()),
    };
    let state = TpmState::from_env(env, b"/srv");
    let config = state.config();
    assert_eq!(config.measure_dir, b"/opt/\xff".to_vec());
    assert_eq!(config.pcr_index, 23);
    assert_eq!(config.pcr_selection(), "sha384:23");
    assert_eq!(config.tcti, "device:/dev/tpm0");
    assert_eq!(config.ak_handle, "0x81010009");
    assert_eq!(config.simulator_dir, b"".to_vec());
}

#[test]
fn unusable_values_fall_back() {
    let index = |value: &str| {
        TpmConfig::from_env(
            TpmEnvironment { pcr_index: Some(value.to_string()), ..environment() },
            b"/",
        )
        .pcr_index
    };
    assert_eq!(index("+7"), 7);
    assert_eq!(index("007"), 7);
    assert_eq!(index("4294967295"), u32::MAX);
    assert_eq!(index("4294967296"), 16);
    assert_eq!(index("-1"), 16);
    assert_eq!(index("+"), 16);
    assert_eq!(index(""), 16);
    assert_eq!(index("1 2"), 16);

    let blank = TpmConfig::from_env(
        TpmEnvironment {
            hash_algorithm: Some(" ".to_string()),
            tcti: Some("".to_string()),
            ak_handle: Some("\t".to_string()),
            ..environment()
        },
        b"/",
    );
    assert_eq!(blank.hash_algorithm, "sha256");
    assert_eq!(blank.tcti, "mssim:host=127.0.0.1,port=2321");
    assert_eq!(blank.ak_handle, "0x81010002");
    let padded = TpmConfig::from_env(
        TpmEnvironment { tcti: Some(" x ".to_string()), ..environment() },
        b"/",
    );
    assert_eq!(padded.tcti, " x ");
}

#[test]
fn every_marker_means_unreachable() {
    let config = TpmConfig::default(b"/srv");
    for marker in [
        "connection refused",
        "COULD NOT CONNECT",
        "No route to host",
        "Failed to connect",
        "could not load TCTI",
        "failed to instantiate tcti",
        "Could not initialize tcti file",
    ] {
        let err = classify_text(&config, "tpm2_x", &format!("noise {marker} noise"));
        assert_eq!(
            err,
            TpmError::NotImplemented(
                "TPM is not reachable through `tpm2_x` \
                 (tcti=mssim:host=127.0.0.1,port=2321): no diagnostic output"
                    .to_string()
            )
        );
    }
}

#[test]
fn the_first_diagnostic_is_reported() {
    let config = TpmConfig::default(b"/srv");
    let err = classify_text(&config, "tpm2_x", "chatter\r\n\n  WARNING: a \r\nERROR: b\n");
    assert_eq!(err, TpmError::Internal("`tpm2_x` failed: WARNING: a".to_string()));
    let err = classify_failure(&config, "tpm2_x", b"ERROR \xff");
    assert_eq!(err, TpmError::Internal("`tpm2_x` failed: ERROR \u{fffd}".to_string()));
    let err = classify_failure(&config, "tpm2_x", b"");
    assert_eq!(err, TpmError::Internal("`tpm2_x` failed: no diagnostic output".to_string()));
}

#[test]
fn outcomes_of_commands() {
    let config = TpmConfig::default(b"/srv");
    assert_eq!(
        tpm2(&config, "getcap", CommandOutcome::Succeeded(b"- 0x81\xff".to_vec())).unwrap(),
        "- 0x81\u{fffd}"
    );
    assert_eq!(
        tpm2(&config, "getcap", CommandOutcome::NotFound).unwrap_err(),
        TpmError::NotImplemented(
            "`tpm2_getcap` was not found; install tpm2-tools to enable TPM attestation".to_string()
        )
    );
    assert_eq!(
        tpm2(&config, "getcap", CommandOutcome::NotExecuted("EACCES".to_string())).unwrap_err(),
        TpmError::Internal("`tpm2_getcap` could not be executed: EACCES".to_string())
    );
    assert_eq!(
        tpm2(&config, "getcap", CommandOutcome::Failed(b"ERROR: x".to_vec())).unwrap_err(),
        TpmError::Internal("`tpm2_getcap` failed: ERROR: x".to_string())
    );
    assert_eq!(binary("quote"), "tpm2_quote");
    assert_eq!(tcti_argument(&config), "--tcti=mssim:host=127.0.0.1,port=2321");
}

#[test]
fn handles_are_found_in_listings() {
    let listing = "- 0x81000000\n-  0x8101ABCD \n";
    assert!(handle_present(listing, "0x8101abcd"));
    assert!(handle_present(listing, " 0X81000000 "));
    assert!(!handle_present(listing, "0x8100000"));
    assert!(!handle_present("", "0x81000000"));
    assert!(handle_present("  --0x1\r\n", "0x1"));
}

#[test]
fn error_texts_of_the_tpm() {
    assert_eq!(
        TpmError::NotImplemented("x".into()).to_string(),
        "TPM backend unavailable: x"
    );
    assert_eq!(TpmError::InvalidInput("x".into()).to_string(), "invalid TPM input: x");
    assert_eq!(TpmError::Internal("x".into()).to_string(), "internal TPM error: x");
}

#[test]
fn scratch_paths() {
    assert_eq!(Scratch::name(42, 7), "tdx-tpm-42-7");
    let scratch = Scratch::new("/tmp/s".to_string(), None, Ok(())).unwrap();
    assert_eq!(scratch.path("ak.pem"), "/tmp/s/ak.pem");
    assert_eq!(scratch.arg("ak.pem").unwrap(), "/tmp/s/ak.pem");
    let slash = Scratch::new("/".to_string(), None, Ok(())).unwrap();
    assert_eq!(slash.path("x"), "/x");

    let odd =
        Scratch::new("/tmp/\u{fffd}".to_string(), Some("/tmp/\\xFF".to_string()), Ok(())).unwrap();
    assert_eq!(
        odd.arg("ak.pem").unwrap_err(),
        TpmError::Internal("temporary path \"/tmp/\\xFF/ak.pem\" is not valid UTF-8".to_string())
    );
    assert_eq!(
        Scratch::new("/tmp/s".to_string(), None, Err("full".to_string())).unwrap_err(),
        TpmError::Internal("temporary directory /tmp/s cannot be created: full".to_string())
    );
}

#[test]
fn measurement_blocks_are_stamped() {
    let folder = FolderMeasurement {
        directory: "/d".to_string(),
        hash_algorithm: "sha256".to_string(),
        measurement: vec![MeasuredFile { name: "a".into(), hash: "00".into(), size: 3 }],
        total_hash: "ff".to_string(),
    };
    let block = folder.as_tpm_measurement(86_399);
    assert_eq!(block.time_stamp, "1970.01.01 23:59:59");
    assert_eq!(block.measurement, folder.measurement);
    assert_eq!(block.total_hash, "ff");
}

#[test]
fn paths_are_joined_and_stripped() {
    assert_eq!(paths::join(b"/a", b"b"), b"/a/b".to_vec());
    assert_eq!(paths::join(b"/a/", b"b"), b"/a/b".to_vec());
    assert_eq!(paths::join(b"", b"b"), b"b".to_vec());
    assert_eq!(paths::join(b"/a", b"/b"), b"/b".to_vec());
    assert!(paths::is_inside(b"/a", b"/a"));
    assert!(paths::is_inside(b"/a", b"/a/b"));
    assert!(paths::is_inside(b"/", b"/a"));
    assert!(!paths::is_inside(b"/a", b"/ab"));
    assert!(!paths::is_inside(b"/a/b", b"/a"));
    assert_eq!(paths::relative(b"/a", b"/a/b/c"), b"b/c".to_vec());
    assert_eq!(paths::relative(b"/", b"/b"), b"b".to_vec());
    assert_eq!(paths::relative(b"/a", b"/ab"), b"/ab".to_vec());
    for (a, b, c) in [(&b""[..], &b"a"[..], &b"aa"[..]), (b"A", b"a", b"b"), (b"a-", b"a.", b"a/")] {
        assert!(paths::is_before(a, b) && paths::is_before(b, c) && paths::is_before(a, c));
        assert!(!paths::is_before(b, a) && !paths::is_before(c, b) && !paths::is_before(c, a));
    }
    assert_eq!(paths::relative(b"/r", &paths::join(b"/r", b"x/y")), b"x/y".to_vec());
    assert!(paths::is_before(b"a", b"ab"));
    assert!(paths::is_before(b"a.", b"a/"));
    assert!(!paths::is_before(b"b", b"ab"));
    assert!(!paths::is_before(b"a", b"a"));
    assert_eq!(paths::copy_bytes(&[1, 2]), vec![1, 2]);
}
