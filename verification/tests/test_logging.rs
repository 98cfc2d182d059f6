//! Lines and places of the audit log.

use tdx_attestation_server::logging::{
    civil_from_days, error, event, info, log_error, log_file_path, log_panic, log_request,
    log_response, log_startup, quote_if_needed, utc_timestamp, warn, SourceLocation,
};
use tdx_attestation_server::Status;

/// 2024-01-01T00:00:00Z.
const NEW_YEAR: u64 = 1_704_067_200;

#[test]
fn quote_if_needed_quotes_whitespace() {
    assert_eq!(quote_if_needed("plain"), "plain");
    assert_eq!(quote_if_needed("two words"), "\"two words\"");
    assert_eq!(quote_if_needed(""), "\"\"");
    assert_eq!(quote_if_needed("a=b"), "\"a=b\"");
}

#[test]
fn timestamp_is_well_formed() {
    let ts = utc_timestamp(NEW_YEAR);
    assert!(ts.ends_with('Z'), "got {ts}");
    assert_eq!(ts.len(), 20, "got {ts}");
    assert_eq!(&ts[4..5], "-");
    assert_eq!(&ts[10..11], "T");
}

#[test]
fn civil_from_days_matches_known_dates() {
    // 1970-01-01
    assert_eq!(civil_from_days(0), (1970, 1, 1));
    // 2000-03-01
    assert_eq!(civil_from_days(11017), (2000, 3, 1));
}

#[test]
fn more_known_dates() {
    assert_eq!(civil_from_days(-1), (1969, 12, 31));
    assert_eq!(civil_from_days(11016), (2000, 2, 29));
    assert_eq!(civil_from_days(47540), (2100, 2, 28));
    assert_eq!(civil_from_days(47541), (2100, 3, 1));
    assert_eq!(civil_from_days(-719_468), (0, 3, 1));
    assert_eq!(civil_from_days(-719_469), (0, 2, 29));
    assert_eq!(civil_from_days(-865_566), (-400, 2, 29));
    assert_eq!(utc_timestamp(NEW_YEAR), "2024-01-01T00:00:00Z");
    assert_eq!(utc_timestamp(NEW_YEAR - 1), "2023-12-31T23:59:59Z");
}

/// The lines of a service from start to panic.
#[test]
fn audit_log_records_events_and_panics() {
    let contents = [
        log_startup(NEW_YEAR, "/tmp/audit.log"),
        log_request(NEW_YEAR, "GET", "/ping", Some("127.0.0.1".to_string())),
        log_response(NEW_YEAR, "GET", "/ping", Status::Success, 3),
        log_error(
            NEW_YEAR,
            "POST",
            "/verify-report",
            Status::BadRequest,
            "report is 1 bytes, expected 1024",
        ),
        log_panic(
            NEW_YEAR,
            Some("main".to_string()),
            Some(SourceLocation { file: "src/api.rs".to_string(), line: 1, column: 2 }),
            Some("deliberate test panic".to_string()),
        ),
    ]
    .concat();

    assert!(contents.contains("event=startup"), "missing startup line:\n{contents}");
    assert!(
        contents.contains("event=request method=GET uri=/ping client=127.0.0.1"),
        "missing request line:\n{contents}"
    );
    assert!(
        contents.contains("event=response method=GET uri=/ping status=200 latency_ms=3"),
        "missing response line:\n{contents}"
    );
    assert!(
        contents.contains("event=error method=POST uri=/verify-report status=400"),
        "missing error line:\n{contents}"
    );
    assert!(
        contents.contains("message=\"report is 1 bytes, expected 1024\""),
        "the error message was not quoted:\n{contents}"
    );
    assert!(
        contents.contains("event=panic") && contents.contains("deliberate test panic"),
        "the panic was not recorded:\n{contents}"
    );
    assert_eq!(contents.lines().count(), 5);
}

#[test]
fn lines_have_the_documented_format() {
    assert_eq!(
        log_request(NEW_YEAR, "GET", "/ping", Some("127.0.0.1".to_string())),
        "2024-01-01T00:00:00Z INFO  event=request method=GET uri=/ping client=127.0.0.1\n"
    );
    assert_eq!(
        log_request(NEW_YEAR, "GET", "/ping", None),
        "2024-01-01T00:00:00Z INFO  event=request method=GET uri=/ping client=-\n"
    );
    assert_eq!(
        log_response(NEW_YEAR, "GET", "/ping", Status::Other(204), 0),
        "2024-01-01T00:00:00Z INFO  event=response method=GET uri=/ping status=204 latency_ms=0\n"
    );
    assert_eq!(
        log_error(NEW_YEAR, "POST", "/verify-report", Status::BadRequest, "a b"),
        "2024-01-01T00:00:00Z ERROR event=error method=POST uri=/verify-report status=400 \
         message=\"a b\"\n"
    );
    assert_eq!(
        log_startup(NEW_YEAR, "/var/log x"),
        "2024-01-01T00:00:00Z INFO  event=startup log_file=\"/var/log x\"\n"
    );
    assert_eq!(
        log_panic(NEW_YEAR, None, None, None),
        "2024-01-01T00:00:00Z ERROR event=panic thread=<unnamed> location=unknown \
         message=\"<non-string panic payload>\"\n"
    );
    let place = SourceLocation { file: "src/api.rs".to_string(), line: 1, column: 22 };
    assert_eq!(
        log_panic(NEW_YEAR, Some("main".to_string()), Some(place), Some("x".to_string())),
        "2024-01-01T00:00:00Z ERROR event=panic thread=main location=src/api.rs:1:22 message=x\n"
    );
}

#[test]
fn levels_are_padded() {
    let fields = [("key", "value".to_string())];
    assert_eq!(info(0, "m", &fields), "1970-01-01T00:00:00Z INFO  m key=value\n");
    assert_eq!(warn(0, "m", &fields), "1970-01-01T00:00:00Z WARN  m key=value\n");
    assert_eq!(error(0, "m", &fields), "1970-01-01T00:00:00Z ERROR m key=value\n");
    assert_eq!(event(0, "CRITICAL", "m", &[]), "1970-01-01T00:00:00Z CRITICAL m\n");
}

/// Every event is one line, whatever its texts contain.
#[test]
fn line_feeds_are_written_out() {
    let fields = [("k\ney", "a\nb".to_string()), ("plain", "a\\nb".to_string())];
    assert_eq!(
        event(0, "IN\nFO", "two\nlines", &fields),
        "1970-01-01T00:00:00Z IN\\nFO two\\nlines k\\ney=\"a\\nb\" plain=a\\nb\n"
    );
    let panic = log_panic(0, None, None, Some("left: 1\n right: \"2\"\n\\".to_string()));
    assert_eq!(panic.matches('\n').count(), 1);
    assert!(panic.ends_with("message=\"left: 1\\n right: \\\"2\\\"\\n\\\\\"\n"));
    // A quoted backslash before an `n` is doubled, a line feed is not.
    let of = |value: &str| info(0, "m", &[("v", value.to_string())]);
    assert_ne!(of("a b\n"), of("a b\\n"));
    assert_eq!(quote_if_needed("a\nb"), "\"a\nb\"");
}

#[test]
fn quotes_and_backslashes_are_escaped() {
    assert_eq!(quote_if_needed("say \"hi\""), "\"say \\\"hi\\\"\"");
    assert_eq!(quote_if_needed("a\\b c"), "\"a\\\\b c\"");
    assert_eq!(quote_if_needed("a\\b"), "a\\b");
    assert_eq!(quote_if_needed("\u{a0}"), "\"\u{a0}\"");
    assert_ne!(quote_if_needed("a b"), quote_if_needed("\"a b\""));
}

#[test]
fn the_log_file_can_be_redirected() {
    let dir = Some(b"/var/log".to_vec());
    let file = Some(b"/tmp/x".to_vec());
    assert_eq!(log_file_path(file, dir.clone(), b"/srv"), b"/tmp/x".to_vec());
    assert_eq!(log_file_path(None, dir, b"/srv"), b"/var/log/tdx-attestation.log".to_vec());
    assert_eq!(
        log_file_path(None, None, b"/srv"),
        b"/srv/log/tdx-attestation.log".to_vec()
    );
}
