//! The audit log: which file it is, and what its lines look like.
//!
//! The log records every HTTP request and the response it produced, every error
//! the service answered with, and the reason of every panic. The program around
//! this library appends the lines that are rendered here.
//!
//! # Format
//!
//! One event per line, `key=value` pairs, so the file is both human readable
//! and easy to grep. A line feed in an event is written as a backslash and an
//! `n`.
//!
//! ```text
//! 2024-01-01T00:00:00Z INFO  event=request method=GET uri=/ping client=127.0.0.1
//! 2024-01-01T00:00:00Z INFO  event=response method=GET uri=/ping status=200 latency_ms=0
//! 2024-01-01T00:00:00Z ERROR event=error method=POST uri=/verify-report status=400 message="..."
//! 2024-01-01T00:00:00Z ERROR event=panic thread=main location=src/api.rs:1:1 message="..."
//! ```

use crate::api::Status;
use crate::calendar;
use crate::paths;
use crate::text;
use vstd::prelude::*;
use vstd::utf8::*;

pub use crate::calendar::civil_from_days;

verus! {

/// Environment variable holding the directory the log file is written to.
pub const ENV_LOG_DIR: &'static str = "TDX_LOG_DIR";

/// Environment variable holding the full path of the log file.
pub const ENV_LOG_FILE: &'static str = "TDX_LOG_FILE";

/// Default directory (relative to the project root) the log file lives in.
pub const DEFAULT_LOG_DIR: &'static str = "log";

/// Default name of the log file.
pub const DEFAULT_LOG_FILE: &'static str = "tdx-attestation.log";

// ---------------------------------------------------------------------------
// Which file
// ---------------------------------------------------------------------------

/// The log file of a project at `root`, given the values of [`ENV_LOG_FILE`]
/// and [`ENV_LOG_DIR`].
pub open spec fn log_path(
    file: Option<Vec<u8>>,
    dir: Option<Vec<u8>>,
    root: Seq<u8>,
) -> Seq<u8> {
    match (file, dir) {
        (Some(path), _) => path@,
        (None, Some(path)) => paths::joined(path@, encode_utf8(DEFAULT_LOG_FILE@)),
        (None, None) => paths::joined(
            paths::joined(root, encode_utf8(DEFAULT_LOG_DIR@)),
            encode_utf8(DEFAULT_LOG_FILE@),
        ),
    }
}

/// Resolves the log file path from the values of [`ENV_LOG_FILE`] and
/// [`ENV_LOG_DIR`], falling back to `<project root>/log/tdx-attestation.log`.
pub fn log_file_path(file: Option<Vec<u8>>, dir: Option<Vec<u8>>, root: &[u8]) -> (r: Vec<u8>)
    ensures
        r@ == log_path(file, dir, root@),
{
    match (file, dir) {
        (Some(path), _) => path,
        (None, Some(path)) => paths::join(path.as_slice(), DEFAULT_LOG_FILE.as_bytes()),
        (None, None) => {
            let default_dir = paths::join(root, DEFAULT_LOG_DIR.as_bytes());
            paths::join(default_dir.as_slice(), DEFAULT_LOG_FILE.as_bytes())
        },
    }
}

// ---------------------------------------------------------------------------
// Values
// ---------------------------------------------------------------------------

/// How a character is written between quotes: quotes and backslashes are
/// preceded by a backslash.
pub open spec fn escaped_char(c: char) -> Seq<char> {
    if c == '\\' || c == '"' {
        seq!['\\', c]
    } else {
        seq![c]
    }
}

/// How a value is written between quotes.
pub open spec fn escaped(value: Seq<char>) -> Seq<char>
    decreases value.len(),
{
    if value.len() == 0 {
        Seq::empty()
    } else {
        escaped_char(value[0]) + escaped(value.drop_first())
    }
}

/// Whether a character makes a value be quoted.
pub open spec fn is_delicate(c: char) -> bool {
    text::white_space(c) || c == '"' || c == '='
}

/// Whether a value is quoted: an empty one, and one that contains white space,
/// a quote or an equals sign.
pub open spec fn is_quoted(value: Seq<char>) -> bool {
    value.len() == 0 || exists|i: int| 0 <= i < value.len() && is_delicate(#[trigger] value[i])
}

/// How a value is written.
pub open spec fn rendered(value: Seq<char>) -> Seq<char> {
    if is_quoted(value) {
        seq!['"'] + escaped(value) + seq!['"']
    } else {
        value
    }
}

/// Quotes a value when it is empty or contains white space, a quote or an
/// equals sign.
pub fn quote_if_needed(value: &str) -> (r: String)
    ensures
        r@ == rendered(value@),
{
    let chars = text::chars_of(value);
    let mut quoted = chars.len() == 0;
    let mut inner = String::new();
    let mut i: usize = 0;
    assert(value@.skip(0) == value@);
    assert(inner@ + escaped(value@) == escaped(value@));
    while i < chars.len()
        invariant
            i <= chars@.len(),
            chars@ == value@,
            inner@ + escaped(value@.skip(i as int)) == escaped(value@),
            quoted <==> chars@.len() == 0 || exists|j: int|
                0 <= j < i && is_delicate(#[trigger] value@[j]),
        decreases chars@.len() - i,
    {
        let c = chars[i];
        if text::is_white_space(c) || c == '"' || c == '=' {
            quoted = true;
        }
        let ghost before = inner@;
        if c == '\\' || c == '"' {
            inner.push('\\');
        }
        inner.push(c);
        proof {
            let rest = value@.skip(i as int);
            assert(rest.drop_first() == value@.skip(i + 1));
            assert(inner@ == before + escaped_char(c));
            assert(value@[i as int] == c && rest[0] == c);
            assert(before + (escaped_char(c) + escaped(rest.drop_first())) == inner@ + escaped(
                rest.drop_first(),
            ));
        }
        i = i + 1;
    }
    assert(inner@ + escaped(value@.skip(i as int)) == inner@);
    if quoted {
        let mut out = String::new();
        out.push('"');
        out.append(inner.as_str());
        out.push('"');
        assert(out@ == seq!['"'] + escaped(value@) + seq!['"']);
        out
    } else {
        value.to_string()
    }
}

// ---------------------------------------------------------------------------
// Lines
// ---------------------------------------------------------------------------

/// UTC time at `seconds` since the Unix epoch as `YYYY-MM-DDTHH:MM:SSZ`.
pub open spec fn stamp_text(seconds: nat) -> Seq<char> {
    calendar::date_text(seconds, '-') + "T"@ + calendar::clock_text(seconds) + "Z"@
}

/// UTC time at `seconds` since the Unix epoch as an RFC 3339-ish
/// `YYYY-MM-DDTHH:MM:SSZ` string.
pub fn utc_timestamp(seconds: u64) -> (r: String)
    ensures
        r@ == stamp_text(seconds as nat),
{
    let mut out = calendar::date_string(seconds, '-');
    out.append("T");
    out.append(calendar::clock_string(seconds).as_str());
    out.append("Z");
    out
}

/// A level, filled with blanks to five characters.
pub open spec fn level_text(level: Seq<char>) -> Seq<char> {
    if level.len() >= 5 {
        level
    } else {
        level + Seq::new((5 - level.len()) as nat, |i: int| ' ')
    }
}

/// A level, filled with blanks to five characters.
fn pad_level(level: &str) -> (r: String)
    ensures
        r@ == level_text(level@),
{
    let mut out = level.to_string();
    let mut have: usize = level.unicode_len();
    let ghost start = have;
    while have < 5
        invariant
            start == level@.len(),
            start <= have,
            have <= 5 || have == start,
            out@ == level@ + Seq::new((have - start) as nat, |i: int| ' '),
        decreases 5 - have,
    {
        out.push(' ');
        have = have + 1;
        assert(out@ == level@ + Seq::new((have - start) as nat, |i: int| ' '));
    }
    assert(out@ == level_text(level@));
    out
}

/// A field of a line: its key and its value.
pub struct FieldModel {
    pub key: Seq<char>,
    pub value: Seq<char>,
}

/// A field with the given key and value.
pub open spec fn field(key: Seq<char>, value: Seq<char>) -> FieldModel {
    FieldModel { key, value }
}

/// The views of a list of fields.
pub open spec fn field_views(fields: Seq<(&str, String)>) -> Seq<FieldModel> {
    Seq::new(fields.len(), |i: int| FieldModel { key: fields[i].0@, value: fields[i].1@ })
}

/// How fields are written: ` key=value` each.
pub open spec fn fields_text(fields: Seq<FieldModel>) -> Seq<char>
    decreases fields.len(),
{
    if fields.len() == 0 {
        Seq::empty()
    } else {
        fields_text(fields.drop_last()) + " "@ + fields.last().key + "="@ + rendered(
            fields.last().value,
        )
    }
}

/// What an event says, before line feeds are taken out of it.
pub open spec fn event_text(
    seconds: nat,
    level: Seq<char>,
    message: Seq<char>,
    fields: Seq<FieldModel>,
) -> Seq<char> {
    stamp_text(seconds) + " "@ + level_text(level) + " "@ + message + fields_text(fields)
}

/// How a character is written on a line: a line feed as a backslash and `n`.
pub open spec fn flat_char(c: char) -> Seq<char> {
    if c == '\n' {
        seq!['\\', 'n']
    } else {
        seq![c]
    }
}

/// How a text is written on a line.
pub open spec fn flat(s: Seq<char>) -> Seq<char>
    decreases s.len(),
{
    if s.len() == 0 {
        Seq::empty()
    } else {
        flat_char(s[0]) + flat(s.drop_first())
    }
}

/// The line of an event.
pub open spec fn line_text(
    seconds: nat,
    level: Seq<char>,
    message: Seq<char>,
    fields: Seq<FieldModel>,
) -> Seq<char> {
    flat(event_text(seconds, level, message, fields)) + "\n"@
}

/// Writes a text on a line.
fn flatten(s: &str) -> (r: String)
    ensures
        r@ == flat(s@),
{
    let chars = text::chars_of(s);
    let mut out = String::new();
    let mut i: usize = 0;
    assert(s@.skip(0) == s@);
    assert(out@ + flat(s@) == flat(s@));
    while i < chars.len()
        invariant
            i <= chars@.len(),
            chars@ == s@,
            out@ + flat(s@.skip(i as int)) == flat(s@),
        decreases chars@.len() - i,
    {
        let c = chars[i];
        let ghost before = out@;
        if c == '\n' {
            out.push('\\');
            out.push('n');
        } else {
            out.push(c);
        }
        proof {
            let rest = s@.skip(i as int);
            assert(rest.drop_first() == s@.skip(i + 1));
            assert(out@ == before + flat_char(c));
            assert(before + (flat_char(c) + flat(rest.drop_first())) == out@ + flat(
                rest.drop_first(),
            ));
        }
        i = i + 1;
    }
    assert(out@ + flat(s@.skip(i as int)) == out@);
    out
}

/// Renders one structured event.
///
/// `fields` are rendered as `key=value` pairs; values containing white space
/// are quoted. Whatever the texts contain, the event is one line.
pub fn event(seconds: u64, level: &str, message: &str, fields: &[(&str, String)]) -> (r: String)
    ensures
        r@ == line_text(seconds as nat, level@, message@, field_views(fields@)),
        r@.len() > 0,
        r@.last() == '\n',
        is_one_line(r@.drop_last()),
{
    let mut body = utc_timestamp(seconds);
    body.append(" ");
    body.append(pad_level(level).as_str());
    body.append(" ");
    body.append(message);
    let ghost head = body@;
    let ghost all = field_views(fields@);
    let mut i: usize = 0;
    assert(all.take(0) == Seq::<FieldModel>::empty());
    assert(head + fields_text(all.take(0)) == head);
    while i < fields.len()
        invariant
            i <= fields@.len(),
            all == field_views(fields@),
            body@ == head + fields_text(all.take(i as int)),
        decreases fields@.len() - i,
    {
        let ghost before = fields_text(all.take(i as int));
        body.append(" ");
        body.append(fields[i].0);
        body.append("=");
        body.append(quote_if_needed(fields[i].1.as_str()).as_str());
        proof {
            assert(all.take(i + 1).drop_last() == all.take(i as int));
            let f = all[i as int];
            assert(head + before + " "@ + f.key + "="@ + rendered(f.value) == head + (before + " "@
                + f.key + "="@ + rendered(f.value)));
        }
        i = i + 1;
    }
    assert(all.take(i as int) == all);
    let mut line = flatten(body.as_str());
    line.append("\n");
    proof {
        law_one_event_per_line(seconds as nat, level@, message@, all);
    }
    line
}

/// Convenience wrapper for an `INFO` event.
pub fn info(seconds: u64, message: &str, fields: &[(&str, String)]) -> (r: String)
    ensures
        r@ == line_text(seconds as nat, "INFO"@, message@, field_views(fields@)),
{
    event(seconds, "INFO", message, fields)
}

/// Convenience wrapper for a `WARN` event.
pub fn warn(seconds: u64, message: &str, fields: &[(&str, String)]) -> (r: String)
    ensures
        r@ == line_text(seconds as nat, "WARN"@, message@, field_views(fields@)),
{
    event(seconds, "WARN", message, fields)
}

/// Convenience wrapper for an `ERROR` event.
pub fn error(seconds: u64, message: &str, fields: &[(&str, String)]) -> (r: String)
    ensures
        r@ == line_text(seconds as nat, "ERROR"@, message@, field_views(fields@)),
{
    event(seconds, "ERROR", message, fields)
}

/// A text, or what stands for it when it is not known.
pub open spec fn text_or(value: Option<String>, fallback: Seq<char>) -> Seq<char> {
    match value {
        Some(known) => known@,
        None => fallback,
    }
}

/// The line of the start of the service.
pub fn log_startup(seconds: u64, log_file: &str) -> (r: String)
    ensures
        r@ == line_text(
            seconds as nat,
            "INFO"@,
            "event=startup"@,
            seq![field("log_file"@, log_file@)],
        ),
{
    let fields: [(&str, String); 1] = [("log_file", log_file.to_string())];
    assert(field_views(fields@) =~= seq![field("log_file"@, log_file@)]);
    event(seconds, "INFO", "event=startup", fields.as_slice())
}

/// The line of a request that is about to be routed. `client` is the address
/// of the client, if it is known.
pub fn log_request(seconds: u64, method: &str, uri: &str, client: Option<String>) -> (r: String)
    ensures
        r@ == line_text(
            seconds as nat,
            "INFO"@,
            "event=request"@,
            seq![
                field("method"@, method@),
                field("uri"@, uri@),
                field("client"@, text_or(client, "-"@)),
            ],
        ),
{
    let address = match client {
        Some(address) => address,
        None => "-".to_string(),
    };
    let fields: [(&str, String); 3] = [
        ("method", method.to_string()),
        ("uri", uri.to_string()),
        ("client", address),
    ];
    assert(field_views(fields@) =~= seq![
        field("method"@, method@),
        field("uri"@, uri@),
        field("client"@, text_or(client, "-"@)),
    ]);
    info(seconds, "event=request", fields.as_slice())
}

/// The line of the response produced for a request.
pub fn log_response(
    seconds: u64,
    method: &str,
    uri: &str,
    status: Status,
    latency_ms: u128,
) -> (r: String)
    ensures
        r@ == line_text(
            seconds as nat,
            "INFO"@,
            "event=response"@,
            seq![
                field("method"@, method@),
                field("uri"@, uri@),
                field("status"@, text::decimal_text(status.spec_code() as nat)),
                field("latency_ms"@, text::decimal_text(latency_ms as nat)),
            ],
        ),
{
    let fields: [(&str, String); 4] = [
        ("method", method.to_string()),
        ("uri", uri.to_string()),
        ("status", text::decimal(status.code() as u128)),
        ("latency_ms", text::decimal(latency_ms)),
    ];
    assert(field_views(fields@) =~= seq![
        field("method"@, method@),
        field("uri"@, uri@),
        field("status"@, text::decimal_text(status.spec_code() as nat)),
        field("latency_ms"@, text::decimal_text(latency_ms as nat)),
    ]);
    info(seconds, "event=response", fields.as_slice())
}

/// The line of an error the service answered with.
pub fn log_error(seconds: u64, method: &str, uri: &str, status: Status, message: &str) -> (r:
    String)
    ensures
        r@ == line_text(
            seconds as nat,
            "ERROR"@,
            "event=error"@,
            seq![
                field("method"@, method@),
                field("uri"@, uri@),
                field("status"@, text::decimal_text(status.spec_code() as nat)),
                field("message"@, message@),
            ],
        ),
{
    let fields: [(&str, String); 4] = [
        ("method", method.to_string()),
        ("uri", uri.to_string()),
        ("status", text::decimal(status.code() as u128)),
        ("message", message.to_string()),
    ];
    assert(field_views(fields@) =~= seq![
        field("method"@, method@),
        field("uri"@, uri@),
        field("status"@, text::decimal_text(status.spec_code() as nat)),
        field("message"@, message@),
    ]);
    error(seconds, "event=error", fields.as_slice())
}

/// A position in a source file.
pub struct SourceLocation {
    pub file: String,
    pub line: u32,
    pub column: u32,
}

/// How a position is written: `FILE:LINE:COLUMN`, or `unknown`.
pub open spec fn location_text(location: Option<SourceLocation>) -> Seq<char> {
    match location {
        Some(l) => l.file@ + ":"@ + text::decimal_text(l.line as nat) + ":"@ + text::decimal_text(
            l.column as nat,
        ),
        None => "unknown"@,
    }
}

/// The line of a panic: the name of the thread, where it happened, and its
/// message, as far as they are known.
pub fn log_panic(
    seconds: u64,
    thread: Option<String>,
    location: Option<SourceLocation>,
    payload: Option<String>,
) -> (r: String)
    ensures
        r@ == line_text(
            seconds as nat,
            "ERROR"@,
            "event=panic"@,
            seq![
                field("thread"@, text_or(thread, "<unnamed>"@)),
                field("location"@, location_text(location)),
                field("message"@, text_or(payload, "<non-string panic payload>"@)),
            ],
        ),
{
    let thread_name = match thread {
        Some(name) => name,
        None => "<unnamed>".to_string(),
    };
    let place = match location {
        Some(l) => {
            let mut out = l.file.clone();
            out.append(":");
            out.append(text::decimal(l.line as u128).as_str());
            out.append(":");
            out.append(text::decimal(l.column as u128).as_str());
            out
        },
        None => "unknown".to_string(),
    };
    let message = match payload {
        Some(message) => message,
        None => "<non-string panic payload>".to_string(),
    };
    let fields: [(&str, String); 3] = [
        ("thread", thread_name),
        ("location", place),
        ("message", message),
    ];
    assert(field_views(fields@) =~= seq![
        field("thread"@, text_or(thread, "<unnamed>"@)),
        field("location"@, location_text(location)),
        field("message"@, text_or(payload, "<non-string panic payload>"@)),
    ]);
    error(seconds, "event=panic", fields.as_slice())
}

// ---------------------------------------------------------------------------
// Laws
// ---------------------------------------------------------------------------

/// Until the end of the year 9999 a timestamp has 20 characters, with dashes in
/// the date, a `T` before the time of day and a `Z` at the end.
pub proof fn law_timestamp_shape(seconds: nat)
    requires
        seconds < 253_402_300_800,
    ensures
        stamp_text(seconds).len() == 20,
        stamp_text(seconds)[4] == '-',
        stamp_text(seconds)[7] == '-',
        stamp_text(seconds)[10] == 'T',
        stamp_text(seconds)[19] == 'Z',
{
    reveal_strlit("T");
    reveal_strlit("Z");
    calendar::law_stamp_shape(seconds, '-');
}

/// Whether a text stays on its line.
pub open spec fn is_one_line(s: Seq<char>) -> bool {
    forall|i: int| 0 <= i < s.len() ==> #[trigger] s[i] != '\n'
}

/// What is written on a line holds no line feed.
proof fn lemma_flat_is_one_line(s: Seq<char>)
    ensures
        is_one_line(flat(s)),
    decreases s.len(),
{
    if s.len() > 0 {
        let rest = flat(s.drop_first());
        lemma_flat_is_one_line(s.drop_first());
        let first = flat_char(s[0]);
        assert forall|i: int| 0 <= i < flat(s).len() implies #[trigger] flat(s)[i] != '\n' by {
            if i >= first.len() {
                assert(flat(s)[i] == rest[i - first.len()]);
            }
        }
    }
}

/// An event is one line, whatever the texts it is made of: it ends with a line
/// feed and holds no other.
pub proof fn law_one_event_per_line(
    seconds: nat,
    level: Seq<char>,
    message: Seq<char>,
    fields: Seq<FieldModel>,
)
    ensures
        line_text(seconds, level, message, fields).len() > 0,
        line_text(seconds, level, message, fields).last() == '\n',
        is_one_line(line_text(seconds, level, message, fields).drop_last()),
{
    reveal_strlit("\n");
    let body = flat(event_text(seconds, level, message, fields));
    lemma_flat_is_one_line(event_text(seconds, level, message, fields));
    assert(line_text(seconds, level, message, fields).drop_last() == body);
}

/// A text without a line feed is written as it is.
pub proof fn law_plain_texts_are_written_as_they_are(s: Seq<char>)
    requires
        is_one_line(s),
    ensures
        flat(s) == s,
    decreases s.len(),
{
    if s.len() > 0 {
        let rest = s.drop_first();
        assert forall|i: int| 0 <= i < rest.len() implies #[trigger] rest[i] != '\n' by {
            assert(rest[i] == s[i + 1]);
        }
        law_plain_texts_are_written_as_they_are(rest);
        assert(s[0] != '\n');
        assert(s == seq![s[0]] + rest);
    } else {
        assert(flat(s) == s);
    }
}

/// Texts are written on a line one after the other.
pub proof fn lemma_flat_joins(a: Seq<char>, b: Seq<char>)
    ensures
        flat(a + b) == flat(a) + flat(b),
    decreases a.len(),
{
    if a.len() == 0 {
        assert(a + b == b);
        assert(flat(a) + flat(b) == flat(b));
    } else {
        lemma_flat_joins(a.drop_first(), b);
        assert((a + b).drop_first() == a.drop_first() + b);
        assert(flat_char(a[0]) + (flat(a.drop_first()) + flat(b)) == flat(a) + flat(b));
    }
}

/// How a character of a quoted value is written on a line.
spec fn written_char(c: char) -> Seq<char> {
    if c == '\n' {
        seq!['\\', 'n']
    } else {
        escaped_char(c)
    }
}

/// A quoted value is written on a line character by character.
proof fn lemma_written(value: Seq<char>)
    requires
        value.len() > 0,
    ensures
        flat(escaped(value)) == written_char(value[0]) + flat(escaped(value.drop_first())),
{
    let c = value[0];
    lemma_flat_joins(escaped_char(c), escaped(value.drop_first()));
    assert(flat(escaped_char(c)) == written_char(c)) by {
        reveal_with_fuel(flat, 3);
        let e = escaped_char(c);
        assert(e.drop_first().len() > 0 ==> e.drop_first().drop_first() == Seq::<char>::empty());
        assert(flat(e) == written_char(c));
    }
}

/// Quoted values can be told apart on a line.
proof fn lemma_written_injective(a: Seq<char>, b: Seq<char>)
    requires
        flat(escaped(a)) == flat(escaped(b)),
    ensures
        a == b,
    decreases a.len(),
{
    if a.len() > 0 {
        lemma_written(a);
    }
    if b.len() > 0 {
        lemma_written(b);
    }
    if a.len() == 0 || b.len() == 0 {
        assert(a == b);
    } else {
        let whole = flat(escaped(a));
        let (x, y) = (written_char(a[0]), written_char(b[0]));
        assert(whole[0] == x[0] && whole[0] == y[0]);
        assert(x.len() == y.len());
        assert(x.len() == 2 ==> whole[1] == x[1] && whole[1] == y[1]);
        assert(a[0] == b[0]);
        let n = x.len() as int;
        assert(whole.skip(n) == flat(escaped(a.drop_first())));
        assert(whole.skip(n) == flat(escaped(b.drop_first())));
        lemma_written_injective(a.drop_first(), b.drop_first());
        assert(a == seq![a[0]] + a.drop_first());
        assert(b == seq![b[0]] + b.drop_first());
    }
}

/// How a quoted value is written on a line.
proof fn lemma_written_quoted(value: Seq<char>)
    requires
        is_quoted(value),
    ensures
        flat(rendered(value)) == seq!['"'] + flat(escaped(value)) + seq!['"'],
{
    let q = seq!['"'];
    assert(flat(q) == q) by {
        law_plain_texts_are_written_as_they_are(q);
    }
    lemma_flat_joins(q, escaped(value));
    lemma_flat_joins(q + escaped(value), q);
}

/// A value that is not quoted is written as it is: a line feed is white space.
proof fn lemma_written_bare(value: Seq<char>)
    requires
        !is_quoted(value),
    ensures
        flat(rendered(value)) == value,
{
    assert forall|i: int| 0 <= i < value.len() implies #[trigger] value[i] != '\n' by {
        assert(!is_delicate(value[i]));
    }
    law_plain_texts_are_written_as_they_are(value);
}

/// What is written of a value on a line tells which value it is, line feeds
/// included.
pub proof fn law_values_can_be_told_apart(a: Seq<char>, b: Seq<char>)
    requires
        flat(rendered(a)) == flat(rendered(b)),
    ensures
        a == b,
{
    if is_quoted(a) {
        lemma_written_quoted(a);
    } else {
        lemma_written_bare(a);
    }
    if is_quoted(b) {
        lemma_written_quoted(b);
    } else {
        lemma_written_bare(b);
    }
    if is_quoted(a) && is_quoted(b) {
        let (x, y) = (flat(rendered(a)), flat(rendered(b)));
        assert(x.subrange(1, x.len() - 1) == flat(escaped(a)));
        assert(y.subrange(1, y.len() - 1) == flat(escaped(b)));
        lemma_written_injective(a, b);
    } else if is_quoted(a) {
        assert(flat(rendered(a))[0] == '"');
        assert(is_delicate(b[0]));
    } else if is_quoted(b) {
        assert(flat(rendered(b))[0] == '"');
        assert(is_delicate(a[0]));
    }
}

/// The log file is the one that is named; else the file `tdx-attestation.log` in
/// the directory that is named; else that file in `log` in the project.
pub proof fn law_where_the_log_is(file: Option<Vec<u8>>, dir: Option<Vec<u8>>, root: Seq<u8>)
    ensures
        file matches Some(path) ==> log_path(file, dir, root) == path@,
        file is None ==> (dir matches Some(path) ==> log_path(file, dir, root) == paths::joined(
            path@,
            encode_utf8("tdx-attestation.log"@),
        )),
        file is None && dir is None ==> log_path(file, dir, root) == paths::joined(
            paths::joined(root, encode_utf8("log"@)),
            encode_utf8("tdx-attestation.log"@),
        ),
{
}

/// A value is written as it is when it is not empty and has no white space, no
/// quote and no equals sign; otherwise it is written between quotes.
pub proof fn law_when_values_are_quoted(value: Seq<char>)
    ensures
        ({
            let plain = value.len() > 0 && forall|i: int|
                0 <= i < value.len() ==> !text::white_space(#[trigger] value[i]) && value[i] != '"'
                    && value[i] != '=';
            let written = rendered(value);
            &&& plain ==> written == value
            &&& !plain ==> written.len() >= 2 && written[0] == '"' && written[written.len() - 1]
                == '"' && written.subrange(1, written.len() - 1) == escaped(value)
        }),
{
    let plain = value.len() > 0 && forall|i: int|
        0 <= i < value.len() ==> !text::white_space(#[trigger] value[i]) && value[i] != '"'
            && value[i] != '=';
    if plain {
        assert forall|i: int| 0 <= i < value.len() implies !is_delicate(#[trigger] value[i]) by {}
    } else {
        if value.len() > 0 {
            let i = choose|i: int|
                0 <= i < value.len() && !(!text::white_space(#[trigger] value[i]) && value[i] != '"'
                    && value[i] != '=');
            assert(is_delicate(value[i]));
        }
        let written = rendered(value);
        assert(written.subrange(1, written.len() - 1) == escaped(value));
    }
}

/// Between quotes, a value is written character by character: a quote or a
/// backslash behind a backslash, and every other character as it is.
pub proof fn law_escaping_is_character_by_character(a: Seq<char>, c: char, b: Seq<char>)
    ensures
        escaped(Seq::empty()) == Seq::<char>::empty(),
        escaped(a + seq![c] + b) == escaped(a) + (if c == '"' || c == '\\' {
            seq!['\\', c]
        } else {
            seq![c]
        }) + escaped(b),
    decreases a.len(),
{
    let middle = if c == '"' || c == '\\' {
        seq!['\\', c]
    } else {
        seq![c]
    };
    let whole = a + seq![c] + b;
    if a.len() == 0 {
        assert(whole.drop_first() == b);
        assert(escaped(a) + middle + escaped(b) == middle + escaped(b));
    } else {
        law_escaping_is_character_by_character(a.drop_first(), c, b);
        assert(whole.drop_first() == a.drop_first() + seq![c] + b);
        assert(escaped_char(a[0]) + (escaped(a.drop_first()) + middle + escaped(b)) == escaped(a)
            + middle + escaped(b));
    }
}

/// On a line, a text is written character by character: a line feed as a
/// backslash and an `n`, and every other character as it is.
pub proof fn law_lines_are_written_character_by_character(a: Seq<char>, c: char, b: Seq<char>)
    ensures
        flat(a + seq![c] + b) == flat(a) + (if c == '\n' {
            seq!['\\', 'n']
        } else {
            seq![c]
        }) + flat(b),
{
    let one = seq![c];
    lemma_flat_joins(a + one, b);
    lemma_flat_joins(a, one);
    assert(one.drop_first() == Seq::<char>::empty());
    assert(flat(one) == flat_char(c) + flat(one.drop_first()));
    assert(flat(one) == flat_char(c));
}

/// A line is the time, the level, the message and the fields, in this order and
/// with a blank between them; the level takes at least five characters. Each
/// field is its key, an equals sign and its value.
pub proof fn law_what_stands_on_a_line(
    seconds: nat,
    level: Seq<char>,
    message: Seq<char>,
    fields: Seq<FieldModel>,
    key: Seq<char>,
    value: Seq<char>,
)
    ensures
        line_text(seconds, level, message, Seq::empty()) == flat(
            stamp_text(seconds) + seq![' '] + level_text(level) + seq![' '] + message,
        ) + seq!['\n'],
        line_text(seconds, level, message, fields.push(FieldModel { key, value }))
            == line_text(seconds, level, message, fields).drop_last() + flat(
            seq![' '] + key + seq!['='] + rendered(value),
        ) + seq!['\n'],
        level_text(level).take(level.len() as int) == level,
        level.len() >= 5 ==> level_text(level) == level,
        level.len() < 5 ==> level_text(level).len() == 5 && forall|i: int|
            level.len() <= i < 5 ==> #[trigger] level_text(level)[i] == ' ',
{
    reveal_strlit(" ");
    reveal_strlit("=");
    reveal_strlit("\n");
    let none = Seq::<FieldModel>::empty();
    let head = stamp_text(seconds) + seq![' '] + level_text(level) + seq![' '] + message;
    assert(event_text(seconds, level, message, none) =~= head);
    assert("\n"@ =~= seq!['\n']);
    let more = fields.push(FieldModel { key, value });
    assert(more.drop_last() == fields);
    let added = seq![' '] + key + seq!['='] + rendered(value);
    let before = event_text(seconds, level, message, fields);
    assert(event_text(seconds, level, message, more) =~= before + added);
    lemma_flat_joins(before, added);
    assert(line_text(seconds, level, message, fields).drop_last() =~= flat(before));
    assert(level_text(level).take(level.len() as int) =~= level);
}

/// The time on a line is the date with dashes, `T`, the time of day, and `Z`.
pub proof fn law_timestamps_are_date_and_time(seconds: nat)
    ensures
        stamp_text(seconds) == calendar::date_text(seconds, '-') + seq!['T'] + calendar::clock_text(
            seconds,
        ) + seq!['Z'],
{
    reveal_strlit("T");
    reveal_strlit("Z");
    assert(stamp_text(seconds) =~= calendar::date_text(seconds, '-') + seq!['T']
        + calendar::clock_text(seconds) + seq!['Z']);
}

/// A position is the file, the line and the column, with colons between them.
pub proof fn law_positions_are_file_line_and_column(location: Option<SourceLocation>)
    ensures
        location matches Some(l) ==> location_text(location) == l.file@ + seq![':']
            + text::decimal_text(l.line as nat) + seq![':'] + text::decimal_text(l.column as nat),
        location is None ==> location_text(location) == "unknown"@,
{
    reveal_strlit(":");
    if let Some(l) = location {
        assert(location_text(location) =~= l.file@ + seq![':'] + text::decimal_text(l.line as nat)
            + seq![':'] + text::decimal_text(l.column as nat));
    }
}

/// A text that is known is written as it is, and another only in its place.
pub proof fn law_known_texts_are_written(value: Option<String>, fallback: Seq<char>)
    ensures
        value matches Some(known) ==> text_or(value, fallback) == known@,
        value is None ==> text_or(value, fallback) == fallback,
{
}

/// The names that the log goes by.
pub proof fn law_names_of_the_log()
    ensures
        ENV_LOG_DIR@ == "TDX_LOG_DIR"@,
        ENV_LOG_FILE@ == "TDX_LOG_FILE"@,
        DEFAULT_LOG_DIR@ == "log"@,
        DEFAULT_LOG_FILE@ == "tdx-attestation.log"@,
{
}

} // verus!
