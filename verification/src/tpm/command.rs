//! `tpm2-*` commands: what their outcome means.

use crate::encoding;
use crate::text;
use crate::tpm::config::{ConfigModel, TpmConfig};
use crate::tpm::error::{TpmError, TpmFault};
use vstd::prelude::*;

verus! {

/// What became of one `tpm2-*` command.
#[derive(Debug)]
pub enum CommandOutcome {
    /// There is no such program.
    NotFound,
    /// The program could not be executed, for the given reason.
    NotExecuted(String),
    /// The program succeeded and wrote this to its standard output.
    Succeeded(Vec<u8>),
    /// The program failed and wrote this to its standard error.
    Failed(Vec<u8>),
}

/// The name of the program behind a subcommand.
pub open spec fn binary_name(subcommand: Seq<char>) -> Seq<char> {
    "tpm2_"@ + subcommand
}

/// The name of the program behind a subcommand.
pub fn binary(subcommand: &str) -> (r: String)
    ensures
        r@ == binary_name(subcommand@),
{
    let mut out = "tpm2_".to_string();
    out.append(subcommand);
    out
}

/// The option that addresses the configured TPM.
pub open spec fn tcti_option(config: ConfigModel) -> Seq<char> {
    "--tcti="@ + config.tcti
}

/// The option that addresses the configured TPM.
pub fn tcti_argument(config: &TpmConfig) -> (r: String)
    ensures
        r@ == tcti_option(config@),
{
    let mut out = "--tcti=".to_string();
    out.append(config.tcti.as_str());
    out
}

// ---------------------------------------------------------------------------
// Failures
// ---------------------------------------------------------------------------

/// Whether a line of output is a diagnostic.
pub open spec fn is_diagnostic(line: Seq<char>) -> bool {
    text::begins_with(line, "ERROR"@) || text::begins_with(line, "WARNING"@)
}

/// The first diagnostic among `lines`, without the white space around it.
pub open spec fn first_diagnostic(lines: Seq<Seq<char>>) -> Option<Seq<char>>
    decreases lines.len(),
{
    if lines.len() == 0 {
        None
    } else if is_diagnostic(text::trimmed(lines[0])) {
        Some(text::trimmed(lines[0]))
    } else {
        first_diagnostic(lines.drop_first())
    }
}

/// What is reported of a program's error output.
pub open spec fn detail_of(stderr: Seq<char>) -> Seq<char> {
    match first_diagnostic(text::lines_of(stderr)) {
        Some(line) => line,
        None => "no diagnostic output"@,
    }
}

/// Whether a program's error output says, in any letter case, that the TPM
/// could not be reached.
pub open spec fn says_unreachable(stderr: Seq<char>) -> bool {
    let lowered = text::lowered(stderr);
    ||| text::has_text(lowered, "connection refused"@)
    ||| text::has_text(lowered, "could not connect"@)
    ||| text::has_text(lowered, "no route to host"@)
    ||| text::has_text(lowered, "failed to connect"@)
    ||| text::has_text(lowered, "could not load tcti"@)
    ||| text::has_text(lowered, "failed to instantiate tcti"@)
    ||| text::has_text(lowered, "could not initialize tcti file"@)
}

/// The error of a program that failed with `stderr`.
pub open spec fn failure_of(
    tcti: Seq<char>,
    binary: Seq<char>,
    stderr: Seq<char>,
) -> TpmFault {
    if says_unreachable(stderr) {
        TpmFault::NotImplemented(
            "TPM is not reachable through `"@ + binary + "` (tcti="@ + tcti + "): "@ + detail_of(
                stderr,
            ),
        )
    } else {
        TpmFault::Internal("`"@ + binary + "` failed: "@ + detail_of(stderr))
    }
}

/// The first diagnostic of a program's error output.
fn diagnostic(stderr: &str) -> (r: String)
    ensures
        r@ == detail_of(stderr@),
{
    let lines = text::lines(stderr);
    let ghost all = text::lines_of(stderr@);
    let mut i: usize = 0;
    assert(all.skip(0) == all);
    while i < lines.len()
        invariant
            i <= lines@.len(),
            text::views(lines@) == all,
            first_diagnostic(all) == first_diagnostic(all.skip(i as int)),
            all == text::lines_of(stderr@),
        decreases lines@.len() - i,
    {
        let line = text::trim(lines[i].as_str());
        assert(all.skip(i as int)[0] == lines@[i as int]@);
        if text::starts_with(line.as_str(), "ERROR") || text::starts_with(line.as_str(), "WARNING") {
            return line;
        }
        assert(all.skip(i as int).drop_first() == all.skip(i + 1));
        i = i + 1;
    }
    "no diagnostic output".to_string()
}

/// Whether a program's error output says that the TPM could not be reached.
fn unreachable_tpm(stderr: &str) -> (r: bool)
    ensures
        r == says_unreachable(stderr@),
{
    let lowered = text::to_lower(stderr);
    let s = lowered.as_str();
    text::contains(s, "connection refused") || text::contains(s, "could not connect")
        || text::contains(s, "no route to host") || text::contains(s, "failed to connect")
        || text::contains(s, "could not load tcti") || text::contains(
        s,
        "failed to instantiate tcti",
    ) || text::contains(s, "could not initialize tcti file")
}

/// Maps the error output of a failed `tpm2-*` invocation, read as text, onto
/// the right error class. See [`classify_failure`].
pub fn classify_text(config: &TpmConfig, binary: &str, stderr: &str) -> (r: TpmError)
    ensures
        r@ == failure_of(config.tcti@, binary@, stderr@),
{
    // Keep the first meaningful line: tpm2-tools is very chatty about TCTI
    // loading, and those lines may mention paths that are not echoed in full.
    let detail = diagnostic(stderr);
    if unreachable_tpm(stderr) {
        let mut message = "TPM is not reachable through `".to_string();
        message.append(binary);
        message.append("` (tcti=");
        message.append(config.tcti.as_str());
        message.append("): ");
        message.append(detail.as_str());
        TpmError::NotImplemented(message)
    } else {
        let mut message = "`".to_string();
        message.append(binary);
        message.append("` failed: ");
        message.append(detail.as_str());
        TpmError::Internal(message)
    }
}

/// Maps a failed `tpm2-*` invocation onto the right error class.
///
/// A TPM that cannot be reached at all (missing TCTI plugin, refused socket,
/// no route) is a *deployment* problem, not a request problem, so it becomes
/// [`TpmError::NotImplemented`] and surfaces as `501`. Everything else is a
/// genuine command failure and becomes [`TpmError::Internal`] (`500`).
pub fn classify_failure(config: &TpmConfig, binary: &str, stderr: &[u8]) -> (r: TpmError)
    ensures
        r@ == failure_of(config.tcti@, binary@, encoding::lossy_text(stderr@)),
        encoding::keeps_text(stderr@),
{
    let shown = encoding::lossy_string(stderr);
    classify_text(config, binary, shown.as_str())
}

/// The output of a subcommand, or the error that its outcome comes to.
pub open spec fn command_result(
    config: ConfigModel,
    subcommand: Seq<char>,
    outcome: CommandOutcome,
) -> Result<Seq<char>, TpmFault> {
    let binary = binary_name(subcommand);
    match outcome {
        CommandOutcome::NotFound => Err(
            TpmFault::NotImplemented(
                "`"@ + binary + "` was not found; install tpm2-tools to enable TPM attestation"@,
            ),
        ),
        CommandOutcome::NotExecuted(reason) => Err(
            TpmFault::Internal("`"@ + binary + "` could not be executed: "@ + reason@),
        ),
        CommandOutcome::Succeeded(stdout) => Ok(encoding::lossy_text(stdout@)),
        CommandOutcome::Failed(stderr) => Err(
            failure_of(config.tcti, binary, encoding::lossy_text(stderr@)),
        ),
    }
}

/// Whether what a program wrote is read as the text that it is, where it is
/// UTF-8.
pub open spec fn read_as_text(outcome: CommandOutcome) -> bool {
    match outcome {
        CommandOutcome::Succeeded(stdout) => encoding::keeps_text(stdout@),
        CommandOutcome::Failed(stderr) => encoding::keeps_text(stderr@),
        _ => true,
    }
}

/// The output of one `tpm2-*` subcommand against the configured TPM, given
/// what became of it.
pub fn tpm2(config: &TpmConfig, subcommand: &str, outcome: CommandOutcome) -> (r: Result<
    String,
    TpmError,
>)
    ensures
        match r {
            Ok(output) => command_result(config@, subcommand@, outcome) == Ok::<
                Seq<char>,
                TpmFault,
            >(output@),
            Err(e) => command_result(config@, subcommand@, outcome) == Err::<Seq<char>, TpmFault>(
                e@,
            ),
        },
        read_as_text(outcome),
{
    let binary = binary(subcommand);
    match outcome {
        CommandOutcome::NotFound => {
            let mut message = "`".to_string();
            message.append(binary.as_str());
            message.append("` was not found; install tpm2-tools to enable TPM attestation");
            Err(TpmError::NotImplemented(message))
        },
        CommandOutcome::NotExecuted(reason) => {
            let mut message = "`".to_string();
            message.append(binary.as_str());
            message.append("` could not be executed: ");
            message.append(reason.as_str());
            Err(TpmError::Internal(message))
        },
        CommandOutcome::Succeeded(stdout) => Ok(encoding::lossy_string(stdout.as_slice())),
        CommandOutcome::Failed(stderr) => {
            Err(classify_failure(config, binary.as_str(), stderr.as_slice()))
        },
    }
}

/// A TPM that cannot be reached at all is a problem of the deployment, and
/// every other failure of a command is an internal error: a command that ran is
/// [`TpmFault::NotImplemented`] exactly when it says that the TPM could not be
/// reached, and never a mistake of the client.
pub proof fn law_unreachable_is_a_deployment_problem(
    tcti: Seq<char>,
    binary: Seq<char>,
    stderr: Seq<char>,
)
    ensures
        failure_of(tcti, binary, stderr) is NotImplemented <==> says_unreachable(stderr),
        failure_of(tcti, binary, stderr) is Internal <==> !says_unreachable(stderr),
{
}

/// Only the messages of a connection that could not be made mean that the TPM is
/// not reachable. The error output of a program that ran and failed is searched
/// for them in any letter case: if it has one of them, there is no backend, and
/// if it has none, the failure is an internal error.
pub proof fn law_only_connection_messages_mean_unreachable(
    tcti: Seq<char>,
    binary: Seq<char>,
    stderr: Seq<char>,
)
    ensures
        ({
            let lowered = text::lowered(stderr);
            let mentioned = {
                ||| text::has_text(lowered, "connection refused"@)
                ||| text::has_text(lowered, "could not connect"@)
                ||| text::has_text(lowered, "no route to host"@)
                ||| text::has_text(lowered, "failed to connect"@)
                ||| text::has_text(lowered, "could not load tcti"@)
                ||| text::has_text(lowered, "failed to instantiate tcti"@)
                ||| text::has_text(lowered, "could not initialize tcti file"@)
            };
            &&& mentioned ==> failure_of(tcti, binary, stderr) is NotImplemented
            &&& !mentioned ==> failure_of(tcti, binary, stderr) is Internal
        }),
{
}

/// What is reported of a failed program is the first line of its error output
/// that, without the white space around it, begins with `ERROR` or `WARNING`.
/// `at` is the number of that line, or of lines when there is none.
pub proof fn law_first_diagnostic_is_reported(stderr: Seq<char>, at: int)
    requires
        0 <= at <= text::lines_of(stderr).len(),
        forall|i: int|
            0 <= i < at ==> {
                let line = text::trimmed(#[trigger] text::lines_of(stderr)[i]);
                !text::begins_with(line, "ERROR"@) && !text::begins_with(line, "WARNING"@)
            },
    ensures
        at == text::lines_of(stderr).len() ==> detail_of(stderr) == "no diagnostic output"@,
        at < text::lines_of(stderr).len() ==> {
            let line = text::trimmed(text::lines_of(stderr)[at]);
            text::begins_with(line, "ERROR"@) || text::begins_with(line, "WARNING"@) ==> detail_of(
                stderr,
            ) == line
        },
{
    lemma_first_diagnostic(text::lines_of(stderr), at);
}

/// Lines that are no diagnostics are passed over.
proof fn lemma_first_diagnostic(lines: Seq<Seq<char>>, at: int)
    requires
        0 <= at <= lines.len(),
        forall|i: int| 0 <= i < at ==> !is_diagnostic(text::trimmed(#[trigger] lines[i])),
    ensures
        at == lines.len() ==> first_diagnostic(lines) is None,
        at < lines.len() && is_diagnostic(text::trimmed(lines[at])) ==> first_diagnostic(lines)
            == Some(text::trimmed(lines[at])),
    decreases at,
{
    if at > 0 {
        let rest = lines.drop_first();
        assert forall|i: int| 0 <= i < at - 1 implies !is_diagnostic(
            text::trimmed(#[trigger] rest[i]),
        ) by {
            assert(rest[i] == lines[i + 1]);
        }
        assert(!is_diagnostic(text::trimmed(lines[0])));
        lemma_first_diagnostic(rest, at - 1);
    }
}

/// The error of a failed program names the program and says what was reported.
pub proof fn law_failures_name_the_program(tcti: Seq<char>, binary: Seq<char>, stderr: Seq<char>)
    ensures
        ({
            let message = match failure_of(tcti, binary, stderr) {
                TpmFault::NotImplemented(message) => message,
                TpmFault::InvalidInput(message) => message,
                TpmFault::Internal(message) => message,
            };
            text::has_text(message, binary) && text::has_text(message, detail_of(stderr))
        }),
{
    let detail = detail_of(stderr);
    let none = Seq::<char>::empty();
    if says_unreachable(stderr) {
        let before = "TPM is not reachable through `"@;
        let message = before + binary + "` (tcti="@ + tcti + "): "@ + detail;
        text::law_occurrence_is_being_part(message, binary);
        text::law_occurrence_is_being_part(message, detail);
        assert(before + binary + ("` (tcti="@ + tcti + "): "@ + detail) == message);
        assert((before + binary + "` (tcti="@ + tcti + "): "@) + detail + none == message);
    } else {
        let message = "`"@ + binary + "` failed: "@ + detail;
        text::law_occurrence_is_being_part(message, binary);
        text::law_occurrence_is_being_part(message, detail);
        assert("`"@ + binary + ("` failed: "@ + detail) == message);
        assert(("`"@ + binary + "` failed: "@) + detail + none == message);
    }
}

/// What is said of a program that is not there, could not be executed, or
/// failed, in full.
pub proof fn law_complaints_about_commands(
    config: ConfigModel,
    subcommand: Seq<char>,
    reason: String,
    stderr: Seq<char>,
)
    ensures
        command_result(config, subcommand, CommandOutcome::NotFound) == Err::<Seq<char>, TpmFault>(
            TpmFault::NotImplemented(
                "`"@ + ("tpm2_"@ + subcommand)
                    + "` was not found; install tpm2-tools to enable TPM attestation"@,
            ),
        ),
        command_result(config, subcommand, CommandOutcome::NotExecuted(reason)) == Err::<
            Seq<char>,
            TpmFault,
        >(
            TpmFault::Internal(
                "`"@ + ("tpm2_"@ + subcommand) + "` could not be executed: "@ + reason@,
            ),
        ),
        failure_of(config.tcti, subcommand, stderr) == TpmFault::NotImplemented(
            "TPM is not reachable through `"@ + subcommand + "` (tcti="@ + config.tcti + "): "@
                + detail_of(stderr),
        ) || failure_of(config.tcti, subcommand, stderr) == TpmFault::Internal(
            "`"@ + subcommand + "` failed: "@ + detail_of(stderr),
        ),
{
}

/// What becomes of a command: the output of a program that succeeded is the
/// result; a program that is not there is no backend; one that could not be
/// executed is an internal error, with the reason; and one that failed is judged
/// by its error output.
pub proof fn law_outcomes_of_commands(
    config: ConfigModel,
    subcommand: Seq<char>,
    outcome: CommandOutcome,
)
    ensures
        ({
            let result = command_result(config, subcommand, outcome);
            let binary = "tpm2_"@ + subcommand;
            match outcome {
                CommandOutcome::Succeeded(stdout) => result == Ok::<Seq<char>, TpmFault>(
                    encoding::lossy_text(stdout@),
                ),
                CommandOutcome::NotFound => result matches Err(TpmFault::NotImplemented(why))
                    && text::has_text(why, binary),
                CommandOutcome::NotExecuted(reason) => result matches Err(TpmFault::Internal(why))
                    && text::has_text(why, binary) && text::has_text(why, reason@),
                CommandOutcome::Failed(stderr) => result == Err::<Seq<char>, TpmFault>(
                    failure_of(config.tcti, binary, encoding::lossy_text(stderr@)),
                ),
            }
        }),
{
    let binary = "tpm2_"@ + subcommand;
    let none = Seq::<char>::empty();
    match outcome {
        CommandOutcome::NotFound => {
            let after = "` was not found; install tpm2-tools to enable TPM attestation"@;
            text::law_occurrence_is_being_part("`"@ + binary + after, binary);
        },
        CommandOutcome::NotExecuted(reason) => {
            let middle = "` could not be executed: "@;
            let why = "`"@ + binary + middle + reason@;
            text::law_occurrence_is_being_part(why, binary);
            text::law_occurrence_is_being_part(why, reason@);
            assert("`"@ + binary + (middle + reason@) == why);
            assert(("`"@ + binary + middle) + reason@ + none == why);
        },
        _ => {},
    }
}

// ---------------------------------------------------------------------------
// Persistent handles
// ---------------------------------------------------------------------------

/// `s` without its leading dashes.
pub open spec fn without_dashes(s: Seq<char>) -> Seq<char>
    decreases s.len(),
{
    if s.len() > 0 && s[0] == '-' {
        without_dashes(s.drop_first())
    } else {
        s
    }
}

/// The handle that a line of `tpm2_getcap handles-persistent` lists.
pub open spec fn listed_handle(line: Seq<char>) -> Seq<char> {
    text::lowered(text::trimmed(without_dashes(text::trimmed(line))))
}

/// Whether the output of `tpm2_getcap handles-persistent` lists `handle`.
pub open spec fn lists_handle(output: Seq<char>, handle: Seq<char>) -> bool {
    let lines = text::lines_of(output);
    exists|i: int|
        0 <= i < lines.len() && #[trigger] listed_handle(lines[i]) == text::lowered(
            text::trimmed(handle),
        )
}

/// Removes the leading dashes of `s`.
fn strip_dashes(s: &str) -> (r: String)
    ensures
        r@ == without_dashes(s@),
{
    let chars = text::chars_of(s);
    let mut from: usize = 0;
    assert(s@.skip(0) == s@);
    while from < chars.len() && chars[from] == '-'
        invariant
            from <= chars@.len(),
            chars@ == s@,
            without_dashes(s@) == without_dashes(s@.skip(from as int)),
        ensures
            from <= chars@.len(),
            without_dashes(s@) == without_dashes(s@.skip(from as int)),
            from < chars@.len() ==> chars@[from as int] != '-',
        decreases chars@.len() - from,
    {
        assert(s@.skip(from as int).drop_first() == s@.skip(from + 1));
        from = from + 1;
    }
    assert(s@.skip(from as int) == s@.subrange(from as int, s@.len() as int));
    text::text_of(&chars, from, chars.len())
}

/// Whether the output of `tpm2_getcap handles-persistent` lists `handle`.
pub fn handle_present(output: &str, handle: &str) -> (r: bool)
    ensures
        r == lists_handle(output@, handle@),
{
    let wanted = text::to_lower(text::trim(handle).as_str());
    let lines = text::lines(output);
    let ghost all = text::lines_of(output@);
    let mut i: usize = 0;
    while i < lines.len()
        invariant
            i <= lines@.len(),
            text::views(lines@) == all,
            all == text::lines_of(output@),
            wanted@ == text::lowered(text::trimmed(handle@)),
            forall|j: int| 0 <= j < i ==> #[trigger] listed_handle(all[j]) != wanted@,
        decreases lines@.len() - i,
    {
        let bare = text::trim(lines[i].as_str());
        let undashed = strip_dashes(bare.as_str());
        let listed = text::to_lower(text::trim(undashed.as_str()).as_str());
        assert(all[i as int] == lines@[i as int]@);
        assert(listed@ == listed_handle(all[i as int]));
        if listed == wanted {
            return true;
        }
        i = i + 1;
    }
    false
}

/// A handle that is listed stands on a line of the output, in any letter case:
/// before it are white space and dashes only, and behind it white space only.
/// Returns the number of the line, and where the handle begins and ends on it.
pub proof fn law_listed_handles_stand_on_a_line(output: Seq<char>, handle: Seq<char>) -> (r: (
    int,
    int,
    int,
))
    requires
        lists_handle(output, handle),
    ensures
        ({
            let (i, from, to) = r;
            let line = text::lines_of(output)[i];
            &&& 0 <= i < text::lines_of(output).len()
            &&& 0 <= from <= to <= line.len()
            &&& text::lowered(line.subrange(from, to)) == text::lowered(text::trimmed(handle))
            &&& forall|k: int|
                0 <= k < from ==> text::white_space(#[trigger] line[k]) || line[k] == '-'
            &&& forall|k: int| to <= k < line.len() ==> text::white_space(#[trigger] line[k])
        }),
{
    let lines = text::lines_of(output);
    let i = choose|i: int|
        0 <= i < lines.len() && #[trigger] listed_handle(lines[i]) == text::lowered(
            text::trimmed(handle),
        );
    let line = lines[i];
    let (a, b) = text::law_trimming_cuts_white_space_off_the_ends(line);
    let bare = text::trimmed(line);
    let dashes = lemma_dashes(bare);
    let undashed = without_dashes(bare);
    let (c, d) = text::law_trimming_cuts_white_space_off_the_ends(undashed);
    let (from, to) = (a + dashes + c, a + dashes + d);
    assert(undashed.subrange(c, d) == line.subrange(from, to));
    assert forall|k: int| 0 <= k < from implies text::white_space(#[trigger] line[k]) || line[k]
        == '-' by {
        if a <= k < a + dashes {
            assert(bare[k - a] == line[k]);
        } else if a + dashes <= k {
            assert(undashed[k - a - dashes] == line[k]);
        }
    }
    assert forall|k: int| to <= k < line.len() implies text::white_space(#[trigger] line[k]) by {
        if k < b {
            assert(undashed[k - a - dashes] == line[k]);
        }
    }
    (i, from, to)
}

/// How many dashes a text begins with.
proof fn lemma_dashes(s: Seq<char>) -> (n: int)
    ensures
        0 <= n <= s.len(),
        without_dashes(s) == s.skip(n),
        forall|i: int| 0 <= i < n ==> #[trigger] s[i] == '-',
        n < s.len() ==> s[n] != '-',
    decreases s.len(),
{
    if s.len() > 0 && s[0] == '-' {
        let rest = s.drop_first();
        let n = lemma_dashes(rest);
        assert(rest.skip(n) == s.skip(n + 1));
        assert forall|i: int| 0 <= i < n + 1 implies #[trigger] s[i] == '-' by {
            if i > 0 {
                assert(rest[i - 1] == s[i]);
            }
        }
        n + 1
    } else {
        assert(s.skip(0) == s);
        0
    }
}

/// A handle that stands on a line of its own is listed, in any letter case,
/// behind any dashes and with any white space around it.
pub proof fn law_handles_on_lines_are_listed(
    output: Seq<char>,
    handle: Seq<char>,
    i: int,
    before: Seq<char>,
    dashes: Seq<char>,
    between: Seq<char>,
    written: Seq<char>,
    after: Seq<char>,
)
    requires
        0 <= i < text::lines_of(output).len(),
        text::lines_of(output)[i] == before + (dashes + between + written) + after,
        forall|k: int| 0 <= k < before.len() ==> text::white_space(#[trigger] before[k]),
        forall|k: int| 0 <= k < dashes.len() ==> #[trigger] dashes[k] == '-',
        forall|k: int| 0 <= k < between.len() ==> text::white_space(#[trigger] between[k]),
        forall|k: int| 0 <= k < after.len() ==> text::white_space(#[trigger] after[k]),
        dashes.len() == 0 ==> between.len() == 0,
        written.len() > 0,
        !text::white_space(written[0]) && written[0] != '-',
        !text::white_space(written.last()),
        text::lowered(written) == text::lowered(text::trimmed(handle)),
    ensures
        lists_handle(output, handle),
{
    let line = text::lines_of(output)[i];
    let bare = dashes + between + written;
    assert(!text::white_space('-'));
    assert(bare.last() == written.last());
    assert(bare[0] == if dashes.len() > 0 {
        dashes[0]
    } else {
        written[0]
    });
    text::law_trimming_ignores_surrounding_white_space(before, bare, after);
    assert(text::trimmed(line) == bare);
    let n = lemma_dashes(bare);
    let rest = between + written;
    assert(bare[dashes.len() as int] == rest[0]);
    assert(rest[0] == if between.len() > 0 {
        between[0]
    } else {
        written[0]
    });
    assert(n == dashes.len()) by {
        if n < dashes.len() {
            assert(bare[n] == dashes[n]);
        } else if n > dashes.len() {
            assert(bare[dashes.len() as int] == '-');
        }
    }
    assert(bare.skip(n) == rest);
    let none = Seq::<char>::empty();
    text::law_trimming_ignores_surrounding_white_space(between, written, none);
    assert(between + written + none == rest);
    assert(listed_handle(line) == text::lowered(written));
}

// ---------------------------------------------------------------------------
// Scratch directory
// ---------------------------------------------------------------------------

/// A private temporary directory for the files that tpm2-tools exchange with
/// the service.
#[derive(Debug)]
pub struct Scratch {
    /// The directory, as it is displayed.
    pub dir: String,
    /// How the directory is written between quotes in a diagnostic, when its
    /// path is not valid UTF-8. No program can be handed such a path.
    pub escaped: Option<String>,
}

/// The mathematical view of a [`Scratch`].
#[verifier::ext_equal]
pub struct ScratchModel {
    pub dir: Seq<char>,
    pub escaped: Option<Seq<char>>,
}

impl View for Scratch {
    type V = ScratchModel;

    open spec fn view(&self) -> ScratchModel {
        ScratchModel { dir: self.dir@, escaped: text::optional_view(self.escaped) }
    }
}

/// The path of the file `name` in the directory `dir`.
pub open spec fn file_path(dir: Seq<char>, name: Seq<char>) -> Seq<char> {
    if dir.len() == 0 || dir.last() == '/' {
        dir + name
    } else {
        dir.push('/') + name
    }
}

/// The path of the file `name` in the directory `dir`.
fn join_text(dir: &str, name: &str) -> (r: String)
    ensures
        r@ == file_path(dir@, name@),
{
    let mut out = dir.to_string();
    let n = dir.unicode_len();
    if n > 0 && dir.get_char(n - 1) != '/' {
        out.push('/');
    }
    out.append(name);
    out
}

/// The complaint about a temporary path that is not valid UTF-8, if it is one.
pub open spec fn scratch_fault(scratch: ScratchModel, name: Seq<char>) -> Option<TpmFault> {
    match scratch.escaped {
        None => None,
        Some(escaped) => Some(
            TpmFault::Internal(
                "temporary path \""@ + file_path(escaped, name) + "\" is not valid UTF-8"@,
            ),
        ),
    }
}

impl Scratch {
    /// The name of the `counter`th scratch directory of process `pid`.
    pub fn name(pid: u32, counter: u64) -> (r: String)
        ensures
            r@ == "tdx-tpm-"@ + text::decimal_text(pid as nat) + "-"@ + text::decimal_text(
                counter as nat,
            ),
    {
        let mut out = "tdx-tpm-".to_string();
        out.append(text::decimal(pid as u128).as_str());
        out.append("-");
        out.append(text::decimal(counter as u128).as_str());
        out
    }

    /// The scratch directory, given how creating it ended.
    pub fn new(dir: String, escaped: Option<String>, created: Result<(), String>) -> (r: Result<
        Self,
        TpmError,
    >)
        ensures
            match r {
                Ok(scratch) => created is Ok && scratch@ == (Scratch { dir, escaped })@,
                Err(e) => created matches Err(reason) && e@ == TpmFault::Internal(
                    "temporary directory "@ + dir@ + " cannot be created: "@ + reason@,
                ),
            },
    {
        match created {
            Ok(()) => Ok(Scratch { dir, escaped }),
            Err(reason) => {
                let mut message = "temporary directory ".to_string();
                message.append(dir.as_str());
                message.append(" cannot be created: ");
                message.append(reason.as_str());
                Err(TpmError::Internal(message))
            },
        }
    }

    /// The path of a file in the directory, as it is displayed.
    pub fn path(&self, name: &str) -> (r: String)
        ensures
            r@ == file_path(self.dir@, name@),
    {
        join_text(self.dir.as_str(), name)
    }

    /// The path of a file in the directory, as an argument for a program.
    pub fn arg(&self, name: &str) -> (r: Result<String, TpmError>)
        ensures
            match r {
                Ok(path) => scratch_fault(self@, name@) is None && path@ == file_path(
                    self.dir@,
                    name@,
                ),
                Err(e) => scratch_fault(self@, name@) == Some(e@),
            },
    {
        match &self.escaped {
            None => Ok(self.path(name)),
            Some(escaped) => {
                let mut message = "temporary path \"".to_string();
                message.append(join_text(escaped.as_str(), name).as_str());
                message.append("\" is not valid UTF-8");
                Err(TpmError::Internal(message))
            },
        }
    }
}

/// A file of a directory has the path of the directory, one slash, and its name;
/// a slash that the directory ends with is not doubled.
pub proof fn law_file_paths(dir: Seq<char>, name: Seq<char>)
    ensures
        ({
            let path = file_path(dir, name);
            let added = path.len() - dir.len() - name.len();
            &&& path.take(dir.len() as int) == dir
            &&& path.skip(dir.len() + added) == name
            &&& added == if dir.len() > 0 && dir[dir.len() - 1] != '/' {
                1int
            } else {
                0
            }
            &&& dir.len() > 0 ==> path[dir.len() + added - 1] == '/'
        }),
{
    let path = file_path(dir, name);
    let added = path.len() - dir.len() - name.len();
    assert(path.take(dir.len() as int) == dir);
    assert(path.skip(dir.len() + added) == name);
}

/// Different files of a directory have different paths.
pub proof fn law_file_paths_are_different(dir: Seq<char>, a: Seq<char>, b: Seq<char>)
    requires
        file_path(dir, a) == file_path(dir, b),
    ensures
        a == b,
{
    law_file_paths(dir, a);
    law_file_paths(dir, b);
}

/// A path can be handed to a program exactly when the directory can be written
/// as text. Otherwise it is an internal error that shows the path.
pub proof fn law_only_text_is_handed_to_programs(scratch: ScratchModel, name: Seq<char>)
    ensures
        scratch.escaped is None <==> scratch_fault(scratch, name) is None,
        scratch.escaped matches Some(escaped) ==> (scratch_fault(scratch, name) matches Some(
            TpmFault::Internal(why),
        ) && text::has_text(why, file_path(escaped, name))),
{
    if let Some(escaped) = scratch.escaped {
        let path = file_path(escaped, name);
        let why = "temporary path \""@ + path + "\" is not valid UTF-8"@;
        text::law_occurrence_is_being_part(why, path);
        assert("temporary path \""@ + path + "\" is not valid UTF-8"@ == why);
    }
}

} // verus!
