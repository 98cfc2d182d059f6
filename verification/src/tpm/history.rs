//! What holds of whole sessions: the order of their commands, and what a
//! finished session rests on.
//!
//! A history is the sequence of events that a session was told, first one
//! first.

use crate::encoding;
use crate::tpm::binding;
use crate::tpm::command;
use crate::tpm::command::CommandOutcome;
use crate::tpm::error::TpmFault;
use crate::tpm::measure;
use crate::tpm::measure::{AnswerModel, ScanModel};
use crate::tpm::nonce;
use crate::tpm::payload;
use crate::tpm::payload::{InformationTpmResponse, QuoteTpmResponse};
use crate::tpm::session;
use crate::tpm::session::{finished_scan_of, EventModel, Phase, SessionModel};
use crate::tpm::walk;
use crate::tpm::walk::World;
use vstd::prelude::*;
use vstd::utf8::*;

verus! {

/// A session after the events of a history.
pub open spec fn after(start: SessionModel, history: Seq<EventModel>) -> SessionModel
    decreases history.len(),
{
    if history.len() == 0 {
        start
    } else {
        after(start, history.drop_last()).next(history.last())
    }
}

/// Whether the session awaited every event of a history when it came.
pub open spec fn possible(start: SessionModel, history: Seq<EventModel>) -> bool
    decreases history.len(),
{
    history.len() > 0 ==> possible(start, history.drop_last()) && after(
        start,
        history.drop_last(),
    ).awaits(history.last())
}

/// The position of a phase in the sequence of a session.
pub open spec fn rank(phase: Phase) -> int {
    match phase {
        Phase::Measure => 0,
        Phase::Startup => 1,
        Phase::Reset => 2,
        Phase::Extend => 3,
        Phase::PcrRead => 4,
        Phase::PcrFile => 5,
        Phase::GetCap => 6,
        Phase::FlushEk => 7,
        Phase::CreateEk => 8,
        Phase::FlushAk => 9,
        Phase::CreateAk => 10,
        Phase::FlushEvict => 11,
        Phase::Evict => 12,
        Phase::FlushDone => 13,
        Phase::FlushQuote => 14,
        Phase::Quote => 15,
        Phase::SignatureFile => 16,
        Phase::MessageFile => 17,
        Phase::PcrsFile => 18,
        Phase::FlushPublic => 19,
        Phase::ReadPublic => 20,
        Phase::PemFile => 21,
        Phase::Done => 22,
        Phase::Failed => 23,
    }
}

/// Every event takes a session forward: no command is issued twice, and a
/// session is finished after at most 23 events.
pub proof fn law_sessions_advance(session: SessionModel, event: EventModel)
    requires
        session.awaits(event),
    ensures
        rank(session.phase) < rank(session.next(event).phase),
{
}

/// A history is no longer than the sequence of a session.
pub proof fn law_sessions_end(start: SessionModel, history: Seq<EventModel>)
    requires
        start.phase == Phase::Measure,
        possible(start, history),
    ensures
        history.len() <= rank(after(start, history).phase) <= 23,
    decreases history.len(),
{
    if history.len() > 0 {
        law_sessions_end(start, history.drop_last());
        law_sessions_advance(after(start, history.drop_last()), history.last());
    }
}

/// Whether the event at `at` is a command that succeeded.
pub open spec fn succeeded(history: Seq<EventModel>, at: int) -> bool {
    &&& 0 <= at < history.len()
    &&& history[at] matches EventModel::Ran(outcome)
    &&& outcome is Succeeded
}

/// The output of a command that succeeded.
pub open spec fn output(history: Seq<EventModel>, at: int) -> Seq<char> {
    match history[at] {
        EventModel::Ran(CommandOutcome::Succeeded(stdout)) => encoding::lossy_text(stdout@),
        _ => Seq::empty(),
    }
}

/// The contents of a file that was read.
pub open spec fn contents(history: Seq<EventModel>, at: int) -> Seq<u8> {
    match history[at] {
        EventModel::File(Ok(bytes)) => bytes,
        _ => Seq::empty(),
    }
}

/// Whether the event at `at` is a file that is not empty.
pub open spec fn delivered(history: Seq<EventModel>, at: int) -> bool {
    &&& 0 <= at < history.len()
    &&& history[at] is File
    &&& contents(history, at).len() > 0
}

/// The scan that a session was told of first.
pub open spec fn told_scan(history: Seq<EventModel>) -> ScanModel {
    history[0]->Measured_0
}

/// Whether the session was told first of a finished scan of the configured
/// directory, and has the folder that the scan came to.
pub open spec fn measured(session: SessionModel, history: Seq<EventModel>) -> bool {
    &&& 0 < history.len()
    &&& history[0] is Measured
    &&& finished_scan_of(told_scan(history), session.config.measure_dir)
    &&& told_scan(history).outcome() matches Ok(folder)
    &&& session.folder == Some(folder)
}

/// Whether the configured directory was measured, and then the PCR was reset,
/// then extended with the digest of the measured folder, then read, each of it with success, and `pcr_value` is what was
/// read.
pub open spec fn pcr_cycle(session: SessionModel, history: Seq<EventModel>) -> bool {
    &&& measured(session, history)
    &&& succeeded(history, 2)
    &&& succeeded(history, 3)
    &&& succeeded(history, 4)
    &&& delivered(history, 5)
    &&& session.pcr_value == encoding::hex_text(contents(history, 5))
}

/// Whether the Attestation Key was found at its handle.
pub open spec fn key_found(session: SessionModel, history: Seq<EventModel>) -> bool {
    succeeded(history, 6) && command::lists_handle(output(history, 6), session.config.ak_handle)
}

/// Whether the handles were listed, and the Attestation Key not among them.
pub open spec fn key_missing(session: SessionModel, history: Seq<EventModel>) -> bool {
    succeeded(history, 6) && !command::lists_handle(output(history, 6), session.config.ak_handle)
}

/// Whether the Attestation Key was found, or was missing and then created and
/// persisted with success.
pub open spec fn key_ensured(session: SessionModel, history: Seq<EventModel>) -> bool {
    ||| key_found(session, history)
    ||| {
        &&& key_missing(session, history)
        &&& succeeded(history, 8)
        &&& succeeded(history, 10)
        &&& succeeded(history, 12)
    }
}

/// When the quote is asked for: right behind the look for the key where it was
/// found, and behind its creation where it was not.
pub open spec fn quote_at(session: SessionModel, history: Seq<EventModel>) -> int {
    if key_found(session, history) {
        8
    } else {
        15
    }
}

/// Whether the quote was made, and the three blobs of the session are what it
/// delivered.
pub open spec fn quoted(session: SessionModel, history: Seq<EventModel>) -> bool {
    let at = quote_at(session, history);
    &&& succeeded(history, at)
    &&& delivered(history, at + 1)
    &&& delivered(history, at + 2)
    &&& delivered(history, at + 3)
    &&& session.signature == contents(history, at + 1)
    &&& session.message == contents(history, at + 2)
    &&& session.pcrs == contents(history, at + 3)
}

/// What a session that has come to its phase rests on.
spec fn grounded(session: SessionModel, history: Seq<EventModel>) -> bool {
    let r = rank(session.phase);
    let quote = session.nonce is Some;
    let at = quote_at(session, history);
    &&& r <= 13 ==> history.len() == r
    &&& 1 <= r < 23 ==> measured(session, history)
    &&& 3 <= r < 23 ==> succeeded(history, 2)
    &&& 4 <= r < 23 ==> succeeded(history, 3)
    &&& 5 <= r < 23 ==> succeeded(history, 4)
    &&& 6 <= r < 23 ==> delivered(history, 5) && session.pcr_value == encoding::hex_text(
        contents(history, 5),
    )
    &&& 7 <= r <= 13 ==> key_missing(session, history)
    &&& 9 <= r <= 13 ==> succeeded(history, 8)
    &&& 11 <= r <= 13 ==> succeeded(history, 10)
    &&& r == 13 ==> succeeded(history, 12)
    &&& 14 <= r <= 21 ==> key_ensured(session, history)
    &&& r == 22 && quote ==> key_ensured(session, history)
    &&& 14 <= r <= 18 ==> quote && history.len() == at - 1 + (r - 14)
    &&& 16 <= r <= 18 ==> succeeded(history, at)
    &&& 17 <= r <= 18 ==> delivered(history, at + 1) && session.signature == contents(
        history,
        at + 1,
    )
    &&& r == 18 ==> delivered(history, at + 2) && session.message == contents(history, at + 2)
    &&& 19 <= r <= 22 && quote ==> quoted(session, history)
}

/// What holds of a history holds of it when it goes on.
proof fn lemma_extended(history: Seq<EventModel>, event: EventModel, at: int)
    requires
        0 <= at < history.len(),
    ensures
        succeeded(history.push(event), at) == succeeded(history, at),
        delivered(history.push(event), at) == delivered(history, at),
        output(history.push(event), at) == output(history, at),
        contents(history.push(event), at) == contents(history, at),
{
}

/// A command succeeds exactly when its program does, and its output is what the
/// program wrote.
proof fn lemma_ran(session: SessionModel, history: Seq<EventModel>, event: EventModel)
    requires
        event is Ran,
    ensures
        ({
            let outcome = event->Ran_0;
            let result = command::command_result(session.config, session.subcommand(), outcome);
            let at = history.len() as int;
            &&& succeeded(history.push(event), at) <==> result is Ok
            &&& result matches Ok(text) ==> output(history.push(event), at) == text
        }),
{
}

/// The first half of the sequence, up to the look for the key.
proof fn lemma_step_pcr(session: SessionModel, history: Seq<EventModel>, event: EventModel)
    requires
        grounded(session, history),
        session.awaits(event),
        rank(session.phase) <= 5,
    ensures
        grounded(session.next(event), history.push(event)),
{
    let r = rank(session.phase);
    if event is Ran {
        lemma_ran(session, history, event);
    }
    if r > 2 {
        lemma_extended(history, event, 2);
    }
    if r > 3 {
        lemma_extended(history, event, 3);
    }
    if r > 4 {
        lemma_extended(history, event, 4);
    }
}

/// Facts about the first half carry over.
proof fn lemma_pcr_extended(session: SessionModel, history: Seq<EventModel>, event: EventModel)
    requires
        pcr_cycle(session, history),
        history.len() > 6,
    ensures
        pcr_cycle(session, history.push(event)),
        key_found(session, history.push(event)) == key_found(session, history),
        key_missing(session, history.push(event)) == key_missing(session, history),
{
    lemma_extended(history, event, 2);
    lemma_extended(history, event, 3);
    lemma_extended(history, event, 4);
    lemma_extended(history, event, 5);
    lemma_extended(history, event, 6);
}

/// The look for the key.
proof fn lemma_step_look(session: SessionModel, history: Seq<EventModel>, event: EventModel)
    requires
        grounded(session, history),
        session.awaits(event),
        rank(session.phase) == 6,
    ensures
        grounded(session.next(event), history.push(event)),
{
    lemma_ran(session, history, event);
    lemma_extended(history, event, 2);
    lemma_extended(history, event, 3);
    lemma_extended(history, event, 4);
    lemma_extended(history, event, 5);
}

/// The creation of the key.
proof fn lemma_step_create(session: SessionModel, history: Seq<EventModel>, event: EventModel)
    requires
        grounded(session, history),
        session.awaits(event),
        7 <= rank(session.phase) <= 13,
    ensures
        grounded(session.next(event), history.push(event)),
{
    let r = rank(session.phase);
    lemma_ran(session, history, event);
    lemma_pcr_extended(session, history, event);
    if r > 8 {
        lemma_extended(history, event, 8);
    }
    if r > 10 {
        lemma_extended(history, event, 10);
    }
    if r > 12 {
        lemma_extended(history, event, 12);
    }
}

/// The quote.
proof fn lemma_step_quote(session: SessionModel, history: Seq<EventModel>, event: EventModel)
    requires
        grounded(session, history),
        session.awaits(event),
        14 <= rank(session.phase) <= 18,
    ensures
        grounded(session.next(event), history.push(event)),
{
    let at = quote_at(session, history);
    let r = rank(session.phase);
    if event is Ran {
        lemma_ran(session, history, event);
    }
    lemma_pcr_extended(session, history, event);
    lemma_key_extended(session, history, event);
    if r > 15 {
        lemma_extended(history, event, at);
    }
    if r > 16 {
        lemma_extended(history, event, at + 1);
    }
    if r > 17 {
        lemma_extended(history, event, at + 2);
    }
}

/// That the key is ensured carries over.
proof fn lemma_key_extended(session: SessionModel, history: Seq<EventModel>, event: EventModel)
    requires
        key_ensured(session, history),
    ensures
        key_ensured(session, history.push(event)),
        key_found(session, history.push(event)) == key_found(session, history),
{
    lemma_extended(history, event, 6);
    if !key_found(session, history) {
        lemma_extended(history, event, 8);
        lemma_extended(history, event, 10);
        lemma_extended(history, event, 12);
    }
}

/// The public key.
proof fn lemma_step_public(session: SessionModel, history: Seq<EventModel>, event: EventModel)
    requires
        grounded(session, history),
        session.awaits(event),
        19 <= rank(session.phase) <= 21,
    ensures
        grounded(session.next(event), history.push(event)),
{
    lemma_pcr_extended(session, history, event);
    lemma_key_extended(session, history, event);
    if session.nonce is Some {
        let at = quote_at(session, history);
        lemma_extended(history, event, at);
        lemma_extended(history, event, at + 1);
        lemma_extended(history, event, at + 2);
        lemma_extended(history, event, at + 3);
    }
}

/// Sessions rest on their history.
proof fn lemma_grounded(start: SessionModel, history: Seq<EventModel>)
    requires
        start.phase == Phase::Measure,
        possible(start, history),
    ensures
        grounded(after(start, history), history),
    decreases history.len(),
{
    if history.len() > 0 {
        let before = history.drop_last();
        let event = history.last();
        let session = after(start, before);
        lemma_grounded(start, before);
        assert(before.push(event) == history);
        let r = rank(session.phase);
        if r <= 5 {
            lemma_step_pcr(session, before, event);
        } else if r == 6 {
            lemma_step_look(session, before, event);
        } else if r <= 13 {
            lemma_step_create(session, before, event);
        } else if r <= 18 {
            lemma_step_quote(session, before, event);
        } else {
            lemma_step_public(session, before, event);
        }
    }
}

/// What a session was started with stays what it is.
pub proof fn law_sessions_keep_what_they_were_given(
    start: SessionModel,
    history: Seq<EventModel>,
)
    requires
        possible(start, history),
    ensures
        after(start, history).config == start.config,
        after(start, history).scratch == start.scratch,
        after(start, history).nonce == start.nonce,
        after(start, history).cached == start.cached,
    decreases history.len(),
{
    if history.len() > 0 {
        law_sessions_keep_what_they_were_given(start, history.drop_last());
    }
}

/// The PCR is always reset before it is extended: a session that asks for the
/// PCR to be extended has just seen it reset with success, and extends it with
/// the digest of the folder that it measured.
pub proof fn law_pcr_is_reset_before_it_is_extended(
    start: SessionModel,
    history: Seq<EventModel>,
)
    requires
        start.phase == Phase::Measure,
        possible(start, history),
        after(start, history).phase == Phase::Extend,
    ensures
        history.len() == 3,
        after(start, history.drop_last()).phase == Phase::Reset,
        succeeded(history, 2),
        measured(after(start, history), history),
        told_scan(history).outcome() matches Ok(folder) && after(start, history).digest()
            == folder.total_hash,
{
    lemma_grounded(start, history);
    lemma_grounded(start, history.drop_last());
    law_sessions_advance(after(start, history.drop_last()), history.last());
}

/// A new Attestation Key is created only when the configured handle is empty:
/// a session that creates one has listed the persistent handles with success,
/// and the configured one was not among them.
pub proof fn law_key_is_created_only_when_missing(start: SessionModel, history: Seq<EventModel>)
    requires
        start.phase == Phase::Measure,
        possible(start, history),
        ({
            let phase = after(start, history).phase;
            phase == Phase::CreateEk || phase == Phase::CreateAk || phase == Phase::Evict
        }),
    ensures
        key_missing(after(start, history), history),
{
    lemma_grounded(start, history);
}

/// Nothing is quoted unless the PCR was reset, extended and read with success
/// in this very session, and the Attestation Key is there.
pub proof fn law_quote_follows_the_pcr_cycle(start: SessionModel, history: Seq<EventModel>)
    requires
        start.phase == Phase::Measure,
        possible(start, history),
        after(start, history).phase == Phase::Quote,
    ensures
        pcr_cycle(after(start, history), history),
        key_ensured(after(start, history), history),
        start.nonce is Some,
        after(start, history).challenge() == start.nonce->0,
{
    lemma_grounded(start, history);
    law_sessions_keep_what_they_were_given(start, history);
}

/// Nothing is fabricated: a session that ends with success has measured the
/// folder, and its PCR value is what the TPM delivered after the PCR was reset
/// and extended with success. If it was to quote, its signature, message and
/// PCRs are what the TPM delivered for a quote that succeeded.
pub proof fn law_nothing_is_fabricated(start: SessionModel, history: Seq<EventModel>)
    requires
        start.phase == Phase::Measure,
        possible(start, history),
        after(start, history).phase == Phase::Done,
    ensures
        pcr_cycle(after(start, history), history),
        start.nonce is Some ==> key_ensured(after(start, history), history) && quoted(
            after(start, history),
            history,
        ),
{
    lemma_grounded(start, history);
    law_sessions_keep_what_they_were_given(start, history);
}

/// A TPM that is not there at all is never passed over: when the program that
/// starts the TPM is missing, or says that the TPM cannot be reached, the
/// session ends with the error that says so.
pub proof fn law_missing_tpm_ends_the_session(session: SessionModel, outcome: CommandOutcome)
    requires
        session.phase == Phase::Startup,
        outcome is NotFound || (outcome matches CommandOutcome::Failed(stderr)
            && command::says_unreachable(encoding::lossy_text(stderr@))),
    ensures
        session.next(EventModel::Ran(outcome)).phase == Phase::Failed,
        session.next(EventModel::Ran(outcome)).error matches Some(TpmFault::NotImplemented(_)),
{
}

/// Whether an event is what a TPM in working order gives.
pub open spec fn is_good(event: EventModel) -> bool {
    match event {
        EventModel::Measured(scan) => scan.outcome() is Ok,
        EventModel::Ran(outcome) => outcome is Succeeded,
        EventModel::File(file) => file matches Ok(bytes) && bytes.len() > 0,
        EventModel::Text(text) => text is Ok,
    }
}

/// A TPM in working order gives an answer: as long as the folder can be
/// measured, commands succeed and deliver their files, a session is not given
/// up, and it ends with the public key. By [`law_sessions_end`] it does end.
pub proof fn law_a_working_tpm_gives_an_answer(start: SessionModel, history: Seq<EventModel>)
    requires
        start.phase == Phase::Measure,
        start.scratch.escaped is None,
        possible(start, history),
        forall|i: int| 0 <= i < history.len() ==> is_good(#[trigger] history[i]),
    ensures
        after(start, history).phase != Phase::Failed,
        after(start, history).phase == Phase::Done ==> after(start, history).pem is Some,
    decreases history.len(),
{
    if history.len() > 0 {
        let before = history.drop_last();
        assert forall|i: int| 0 <= i < before.len() implies is_good(#[trigger] before[i]) by {
            assert(before[i] == history[i]);
        }
        law_a_working_tpm_gives_an_answer(start, before);
        law_sessions_keep_what_they_were_given(start, before);
        assert(is_good(history[history.len() - 1]));
    }
}

/// The public part of the Attestation Key is read once: a session that was
/// given it never asks for it.
pub proof fn law_public_key_is_read_once(start: SessionModel, history: Seq<EventModel>)
    requires
        start.phase == Phase::Measure,
        start.cached is Some,
        possible(start, history),
    ensures
        rank(after(start, history).phase) < rank(Phase::FlushPublic) || rank(
            after(start, history).phase,
        ) > rank(Phase::PemFile),
    decreases history.len(),
{
    if history.len() > 0 {
        law_public_key_is_read_once(start, history.drop_last());
        law_sessions_keep_what_they_were_given(start, history.drop_last());
    }
}

/// Releasing transient objects is best effort: its outcome changes nothing.
pub proof fn law_flushing_is_best_effort(
    session: SessionModel,
    a: CommandOutcome,
    b: CommandOutcome,
)
    requires
        ({
            let phase = session.phase;
            ||| phase == Phase::FlushEk
            ||| phase == Phase::FlushAk
            ||| phase == Phase::FlushEvict
            ||| phase == Phase::FlushDone
            ||| phase == Phase::FlushQuote
            ||| phase == Phase::FlushPublic
        }),
    ensures
        session.next(EventModel::Ran(a)) == session.next(EventModel::Ran(b)),
{
}

// ---------------------------------------------------------------------------
// Errors
// ---------------------------------------------------------------------------

/// A finished scan fails for internal reasons only.
proof fn lemma_told_failures_are_internal(scan: ScanModel)
    requires
        scan.reached(),
    ensures
        scan.outcome() matches Err(e) ==> e is Internal,
{
    let start = measure::scan_start(scan.given);
    let answers = choose|answers: Seq<AnswerModel>|
        measure::scan_possible(start, answers) && scan == #[trigger] measure::scan_after(
            start,
            answers,
        );
    walk::law_scan_failures_are_internal(scan.given, answers);
}

/// Whatever a session is told, it is never given up as a mistake of the client:
/// the challenge was validated before it started.
pub proof fn law_sessions_never_blame_the_client(
    start: SessionModel,
    history: Seq<EventModel>,
)
    requires
        start.error is None,
        possible(start, history),
    ensures
        after(start, history).error matches Some(e) ==> !(e is InvalidInput),
    decreases history.len(),
{
    if history.len() > 0 {
        law_sessions_never_blame_the_client(start, history.drop_last());
        if let EventModel::Measured(scan) = history.last() {
            lemma_told_failures_are_internal(scan);
        }
    }
}

// ---------------------------------------------------------------------------
// The folder
// ---------------------------------------------------------------------------

/// The configured directory is measured before any command is issued: the first
/// thing that a session waits for is a scan of it. If it cannot be measured, no
/// command is issued at all, and the session ends with the reason.
pub proof fn law_the_configured_directory_is_measured_first(
    start: SessionModel,
    history: Seq<EventModel>,
)
    requires
        start.phase == Phase::Measure,
        possible(start, history),
        history.len() > 0,
    ensures
        history[0] is Measured,
        finished_scan_of(told_scan(history), start.config.measure_dir),
        told_scan(history).outcome() matches Err(e) ==> {
            &&& history.len() == 1
            &&& after(start, history).phase == Phase::Failed
            &&& after(start, history).error == Some(e)
        },
{
    lemma_prefix_possible(start, history, 0);
    assert(history.take(0) == Seq::<EventModel>::empty());
    assert(start.awaits(history[0]));
    if told_scan(history).outcome() is Err {
        if history.len() > 1 {
            lemma_prefix_possible(start, history, 1);
            assert(history.take(1).drop_last() == history.take(0));
            assert(history.take(1).last() == history[0]);
            assert(after(start, history.take(1)) == start.next(history[0]));
        } else {
            assert(history.drop_last() == history.take(0));
        }
    }
}

/// Whether the configured directory names the directory `root` in a world in
/// which directories are nested finitely deep.
pub open spec fn measurable_in(
    world: World,
    session: SessionModel,
    root: Seq<u8>,
    depth: nat,
) -> bool {
    &&& world.canonical()
    &&& world.resolved(session.config.measure_dir) == Some(root)
    &&& (world.at)(root) is Directory
    &&& world.shallow(root, depth)
}

/// Whether the scan that a session was told of had `steps` questions, and each
/// of them was answered from the world.
pub open spec fn scanned_in(
    world: World,
    start: SessionModel,
    history: Seq<EventModel>,
    steps: nat,
) -> bool {
    told_scan(history) == world.run(measure::scan_start(start.config.measure_dir), steps)
}

/// What a session measures is the folder that the configured directory names:
/// if the questions of the scan are answered from a world in which the
/// configured directory resolves to the directory `root`, and in which
/// directories are nested finitely deep, the folder of the session is the
/// measurement that the world determines.
pub proof fn law_sessions_measure_the_configured_directory(
    world: World,
    root: Seq<u8>,
    depth: nat,
    start: SessionModel,
    history: Seq<EventModel>,
    steps: nat,
)
    requires
        measurable_in(world, start, root, depth),
        start.phase == Phase::Measure,
        possible(start, history),
        after(start, history).phase == Phase::Done,
        scanned_in(world, start, history, steps),
    ensures
        after(start, history).folder == Some(world.measurement(root, depth)),
{
    law_nothing_is_fabricated(start, history);
    law_sessions_keep_what_they_were_given(start, history);
    walk::law_finished_scans_measure_the_folder(
        world,
        start.config.measure_dir,
        root,
        depth,
        steps,
    );
}

// ---------------------------------------------------------------------------
// The PCR
// ---------------------------------------------------------------------------

/// Sessions with one configuration that measured folders with the same digest
/// issue the same commands to the PCR: they reset the same PCR, extend it with
/// the same digest and, with the same scratch directory, read it in the same
/// way.
pub proof fn law_same_folder_same_pcr_commands(a: SessionModel, b: SessionModel)
    requires
        a.config == b.config,
        a.digest() == b.digest(),
        a.phase == b.phase,
    ensures
        a.phase == Phase::Startup || a.phase == Phase::Reset || a.phase == Phase::Extend ==> a.step()
            == b.step(),
        a.phase == Phase::PcrRead ==> a.arguments()[0] == b.arguments()[0],
        a.phase == Phase::PcrRead && a.scratch == b.scratch ==> a.step() == b.step(),
{
}

/// How the configured PCR of some TPM reacts to the commands of a session.
pub struct PcrModel {
    /// What it holds once it is reset.
    pub reset: Seq<u8>,
    /// What it holds once what it held is extended with a digest.
    pub extend: spec_fn(Seq<u8>, Seq<char>) -> Seq<u8>,
    /// What any other event leaves of what it held, given the phase of the
    /// session. Reading the PCR leaves it as it is, whatever stands here.
    pub otherwise: spec_fn(Phase, EventModel, Seq<u8>) -> Seq<u8>,
}

impl PcrModel {
    /// Whether the PCR is one of the SHA-256 bank: reset, it holds zeros, and
    /// extending it takes the digest over what it held and the new digest.
    pub open spec fn hashes(self) -> bool {
        &&& self.reset == Seq::new(32, |i: int| 0u8)
        &&& forall|held: Seq<u8>, digest: Seq<char>|
            #[trigger] (self.extend)(held, digest) == encoding::sha256(
                held + encoding::unhexed(encode_utf8(digest)),
            )
    }

    /// What the PCR holds after an event.
    pub open spec fn effect(self, session: SessionModel, event: EventModel, held: Seq<u8>) -> Seq<
        u8,
    > {
        let worked = event matches EventModel::Ran(outcome) && outcome is Succeeded;
        if session.phase == Phase::Reset && worked {
            self.reset
        } else if session.phase == Phase::Extend && worked {
            (self.extend)(held, session.digest())
        } else if session.phase == Phase::PcrRead || session.phase == Phase::PcrFile {
            held
        } else {
            (self.otherwise)(session.phase, event, held)
        }
    }

    /// What the PCR holds after the events of a history, if it held `held`
    /// before.
    pub open spec fn held_after(
        self,
        start: SessionModel,
        history: Seq<EventModel>,
        held: Seq<u8>,
    ) -> Seq<u8>
        decreases history.len(),
    {
        if history.len() == 0 {
            held
        } else {
            let before = history.drop_last();
            self.effect(
                after(start, before),
                history.last(),
                self.held_after(start, before, held),
            )
        }
    }
}

/// What was possible was possible up to any point.
proof fn lemma_prefix_possible(start: SessionModel, history: Seq<EventModel>, k: int)
    requires
        possible(start, history),
        0 <= k <= history.len(),
    ensures
        possible(start, history.take(k)),
        k < history.len() ==> after(start, history.take(k)).awaits(history[k]),
    decreases history.len(),
{
    if k == history.len() {
        assert(history.take(k) == history);
    } else if k == history.len() - 1 {
        assert(history.take(k) == history.drop_last());
    } else {
        lemma_prefix_possible(start, history.drop_last(), k);
        assert(history.drop_last().take(k) == history.take(k));
        assert(history.drop_last()[k] == history[k]);
    }
}

/// Up to the look for the key, a session that goes on is in the phase that its
/// history is long.
proof fn lemma_early_phase(start: SessionModel, history: Seq<EventModel>, k: int)
    requires
        start.phase == Phase::Measure,
        possible(start, history),
        0 <= k <= 6,
        k < history.len(),
    ensures
        rank(after(start, history.take(k)).phase) == k,
{
    let prefix = history.take(k);
    lemma_prefix_possible(start, history, k);
    lemma_grounded(start, prefix);
    law_sessions_end(start, prefix);
    let r = rank(after(start, prefix).phase);
    assert(r != 22 && r != 23);
}

/// Where a session is when it resets, extends and reads the PCR: it has measured
/// a folder and has it, it has what it was started with, and each of the three
/// commands succeeds before the next one is issued.
pub proof fn law_pcr_phases(start: SessionModel, history: Seq<EventModel>)
    requires
        start.phase == Phase::Measure,
        possible(start, history),
        history.len() > 5,
    ensures
        told_scan(history).outcome() is Ok,
        forall|k: int|
            2 <= k <= 4 ==> {
                let session = #[trigger] after(start, history.take(k));
                &&& session.phase == (if k == 2 {
                    Phase::Reset
                } else if k == 3 {
                    Phase::Extend
                } else {
                    Phase::PcrRead
                })
                &&& session.folder == Some(told_scan(history).outcome()->Ok_0)
                &&& session.config == start.config
                &&& session.scratch == start.scratch
                &&& succeeded(history, k)
            },
{
    lemma_prefix_possible(start, history, 5);
    lemma_grounded(start, history.take(5));
    lemma_early_phase(start, history, 5);
    assert forall|k: int| 2 <= k <= 4 implies ({
        let session = #[trigger] after(start, history.take(k));
        &&& session.phase == (if k == 2 {
            Phase::Reset
        } else if k == 3 {
            Phase::Extend
        } else {
            Phase::PcrRead
        })
        &&& session.folder == Some(told_scan(history).outcome()->Ok_0)
        &&& session.config == start.config
        &&& session.scratch == start.scratch
        &&& succeeded(history, k)
    }) by {
        lemma_early_phase(start, history, k);
        lemma_prefix_possible(start, history, k);
        lemma_grounded(start, history.take(k));
        law_sessions_keep_what_they_were_given(start, history.take(k));
        assert(history.take(k)[0] == history[0]);
        assert(succeeded(history.take(5), k));
        assert(history.take(5)[k] == history[k]);
    }
    assert(history.take(5)[0] == history[0]);
}

/// What the PCR holds when it is read does not depend on what it held before
/// the session: it is what a reset PCR holds once it is extended with the
/// digest of the measured folder. The PCR is reset, not accumulated.
pub proof fn law_pcr_is_not_accumulated(
    pcr: PcrModel,
    start: SessionModel,
    history: Seq<EventModel>,
    held: Seq<u8>,
)
    requires
        start.phase == Phase::Measure,
        possible(start, history),
        history.len() > 5,
    ensures
        told_scan(history).outcome() matches Ok(folder) && pcr.held_after(
            start,
            history.take(5),
            held,
        ) == (pcr.extend)(pcr.reset, folder.total_hash),
{
    lemma_early_phase(start, history, 2);
    lemma_early_phase(start, history, 3);
    lemma_early_phase(start, history, 4);
    lemma_early_phase(start, history, 5);
    lemma_prefix_possible(start, history, 3);
    lemma_prefix_possible(start, history, 5);
    lemma_grounded(start, history.take(3));
    lemma_grounded(start, history.take(5));
    assert(history.take(5).drop_last() == history.take(4));
    assert(history.take(4).drop_last() == history.take(3));
    assert(history.take(3).drop_last() == history.take(2));
    let h = history.take(5);
    assert(succeeded(h, 2) && succeeded(h, 3));
    assert(h[2] == history[2] && h[3] == history[3]);
    assert(history.take(4).last() == history[3]);
    assert(history.take(3).last() == history[2]);
    assert(history.take(3)[0] == history[0]);
    assert(pcr.held_after(start, history.take(3), held) == pcr.reset);
    let extending = after(start, history.take(3));
    assert(extending.phase == Phase::Extend);
    assert(after(start, history.take(4)).phase == Phase::PcrRead);
    assert(pcr.held_after(start, history.take(4), held) == (pcr.extend)(
        pcr.reset,
        extending.digest(),
    ));
    assert(pcr.held_after(start, history.take(5), held) == pcr.held_after(
        start,
        history.take(4),
        held,
    ));
}

/// Whether a session has ended with success, and what it read of the PCR is
/// what the PCR held, if it held `held` before the session.
pub open spec fn answered(
    pcr: PcrModel,
    start: SessionModel,
    history: Seq<EventModel>,
    held: Seq<u8>,
) -> bool {
    &&& start.phase == Phase::Measure
    &&& possible(start, history)
    &&& after(start, history).phase == Phase::Done
    &&& contents(history, 5) == pcr.held_after(start, history.take(5), held)
}

/// Two sessions with success on folders with the same digest report the same
/// PCR value, whatever the PCR held before each of them, provided that what is
/// read of the PCR is what it holds.
pub proof fn law_equal_digests_give_equal_pcr_values(
    pcr: PcrModel,
    a: SessionModel,
    history_a: Seq<EventModel>,
    held_a: Seq<u8>,
    b: SessionModel,
    history_b: Seq<EventModel>,
    held_b: Seq<u8>,
)
    requires
        answered(pcr, a, history_a, held_a),
        answered(pcr, b, history_b, held_b),
        after(a, history_a).digest() == after(b, history_b).digest(),
    ensures
        after(a, history_a).pcr_value == after(b, history_b).pcr_value,
{
    law_nothing_is_fabricated(a, history_a);
    law_nothing_is_fabricated(b, history_b);
    law_pcr_is_not_accumulated(pcr, a, history_a, held_a);
    law_pcr_is_not_accumulated(pcr, b, history_b, held_b);
}

/// The PCR value is a hash of the folder digest, not a copy of it: on a PCR of
/// the SHA-256 bank, see [`PcrModel::hashes`], the two are different, unless
/// what the folder digest is taken over collides under SHA-256 with what the
/// PCR was extended to. That digests have 32 bytes is what
/// [`crate::tpm::session::Session::event`] promises of the scan.
pub proof fn law_pcr_value_is_not_the_folder_digest(
    pcr: PcrModel,
    start: SessionModel,
    history: Seq<EventModel>,
    held: Seq<u8>,
)
    requires
        pcr.hashes(),
        answered(pcr, start, history, held),
        measure::measured_well(told_scan(history)),
    ensures
        ({
            let total = measure::total_bytes(told_scan(history).measured);
            after(start, history).pcr_value != after(start, history).digest()
                || binding::collides(total, pcr.reset + encoding::sha256(total))
        }),
{
    law_nothing_is_fabricated(start, history);
    law_pcr_is_not_accumulated(pcr, start, history, held);
    let records = told_scan(history).measured;
    let total = measure::total_bytes(records);
    let digest = encoding::sha256(total);
    let extended = encoding::sha256(pcr.reset + digest);
    encoding::lemma_hex_text_bytes(digest);
    encoding::law_hex_round_trip(digest);
    encoding::law_hex_round_trip(extended);
    assert(encoding::hex_text(digest).len() == 2 * digest.len());
    if total == pcr.reset + digest {
        binding::lemma_two_digests_are_no_records(records);
        assert(total[0] == pcr.reset[0]);
    }
}

/// Measuring an unchanged directory again gives the same: two sessions that
/// measure the same directory of one world report the same folder and the same
/// PCR value, whatever the PCR held before each of them. On a PCR of the SHA-256
/// bank that value is not the digest of the folder, unless the pair collides that
/// [`law_pcr_value_is_not_the_folder_digest`] names.
pub proof fn law_repeated_measurements_agree(
    pcr: PcrModel,
    world: World,
    root: Seq<u8>,
    depth: nat,
    a: SessionModel,
    history_a: Seq<EventModel>,
    held_a: Seq<u8>,
    steps_a: nat,
    b: SessionModel,
    history_b: Seq<EventModel>,
    held_b: Seq<u8>,
    steps_b: nat,
)
    requires
        a.config == b.config,
        measurable_in(world, a, root, depth),
        answered(pcr, a, history_a, held_a),
        answered(pcr, b, history_b, held_b),
        scanned_in(world, a, history_a, steps_a),
        scanned_in(world, b, history_b, steps_b),
    ensures
        after(a, history_a).folder == after(b, history_b).folder,
        after(a, history_a).folder == Some(world.measurement(root, depth)),
        after(a, history_a).pcr_value == after(b, history_b).pcr_value,
        pcr.hashes() && measure::measured_well(told_scan(history_a)) ==> {
            let total = measure::total_bytes(told_scan(history_a).measured);
            after(a, history_a).pcr_value != after(a, history_a).digest() || binding::collides(
                total,
                pcr.reset + encoding::sha256(total),
            )
        },
{
    law_sessions_measure_the_configured_directory(world, root, depth, a, history_a, steps_a);
    law_sessions_measure_the_configured_directory(world, root, depth, b, history_b, steps_b);
    law_equal_digests_give_equal_pcr_values(
        pcr,
        a,
        history_a,
        held_a,
        b,
        history_b,
        held_b,
    );
    if pcr.hashes() && measure::measured_well(told_scan(history_a)) {
        law_pcr_value_is_not_the_folder_digest(pcr, a, history_a, held_a);
    }
}

// ---------------------------------------------------------------------------
// Answers
// ---------------------------------------------------------------------------

/// A quote tells what the TPM delivered in the very session that it was asked
/// for: the PCR value is the file that the PCR was written to, in hexadecimal;
/// the blobs stand for the signature, the message and the PCRs, and their sizes
/// are given; the measurement is the folder that was measured, with the time; and
/// the challenge, the PCR, the bank and the handle are those that the session was
/// started with.
pub proof fn law_quotes_tell_what_was_delivered(
    start: SessionModel,
    history: Seq<EventModel>,
    seconds: nat,
    response: QuoteTpmResponse,
)
    requires
        start.phase == Phase::Measure,
        start.nonce is Some,
        possible(start, history),
        after(start, history).phase == Phase::Done,
        session::quote_of(after(start, history), seconds, response),
    ensures
        ({
            let at = quote_at(after(start, history), history);
            let tpm = response.evidence.tpm;
            &&& response.status == 0
            &&& response.pcr_value@ == encoding::hex_text(contents(history, 5))
            &&& response.pcr_index == start.config.pcr_index
            &&& response.hash_algorithm@ == start.config.hash_algorithm
            &&& told_scan(history).outcome() matches Ok(folder)
            &&& response.measurement.total_hash@ == folder.total_hash
            &&& response.measurement.time_stamp@ == payload::stamp_text(seconds)
            &&& response.measurement.measurement@.len() == folder.measurement.len()
            &&& forall|i: int|
                0 <= i < folder.measurement.len() ==> (
                #[trigger] response.measurement.measurement@[i])@ == folder.measurement[i]
            &&& encoding::unblobbed(tpm.signature@) == Some(contents(history, at + 1))
            &&& encoding::unblobbed(tpm.message@) == Some(contents(history, at + 2))
            &&& encoding::unblobbed(tpm.pcrs@) == Some(contents(history, at + 3))
            &&& tpm.signature_size == contents(history, at + 1).len()
            &&& tpm.message_size == contents(history, at + 2).len()
            &&& tpm.quote@ == tpm.signature@ + seq![':'] + tpm.message@ + seq![':'] + tpm.pcrs@
            &&& tpm.quote_size == tpm.quote@.len()
            &&& Some(tpm.nonce@) == start.nonce
            &&& tpm.nonce_size == nonce::nonce_bytes(tpm.nonce@).len()
            &&& tpm.pcr_index == start.config.pcr_index
            &&& tpm.hash_algorithm@ == start.config.hash_algorithm
            &&& tpm.ak_handle@ == start.config.ak_handle
            &&& after(start, history).pem matches Some(pem) ==> response.ak_pubkey@ == pem
            &&& after(start, history).pem is None ==> response.ak_pubkey@.len() == 0
        }),
{
    reveal_strlit(":");
    let session = after(start, history);
    let at = quote_at(session, history);
    let tpm = response.evidence.tpm;
    law_nothing_is_fabricated(start, history);
    law_sessions_keep_what_they_were_given(start, history);
    encoding::law_blob_round_trip(session.signature);
    encoding::law_blob_round_trip(session.message);
    encoding::law_blob_round_trip(session.pcrs);
    let folder = told_scan(history).outcome()->Ok_0;
    let block = response.measurement.measurement@;
    assert(payload::file_views(block) == folder.measurement);
    assert forall|i: int| 0 <= i < folder.measurement.len() implies (#[trigger] block[i])@
        == folder.measurement[i] by {
        assert(payload::file_views(block)[i] == block[i]@);
    }
    assert(tpm.quote@ =~= tpm.signature@ + seq![':'] + tpm.message@ + seq![':'] + tpm.pcrs@);
    encoding::lemma_base64_is_ascii(encode_utf8(encoding::hex_text(session.signature)));
    encoding::lemma_base64_is_ascii(encode_utf8(encoding::hex_text(session.message)));
    encoding::lemma_base64_is_ascii(encode_utf8(encoding::hex_text(session.pcrs)));
    let (s, m, p) = (tpm.signature@, tpm.message@, tpm.pcrs@);
    assert forall|i: int| 0 <= i < tpm.quote@.len() implies '\0' <= #[trigger] tpm.quote@[i]
        <= '\u{7f}' by {
        if i < s.len() {
            assert(tpm.quote@[i] == s[i]);
        } else if s.len() < i <= s.len() + m.len() {
            assert(tpm.quote@[i] == m[i - s.len() - 1]);
        } else if i > s.len() + m.len() + 1 {
            assert(tpm.quote@[i] == p[i - s.len() - m.len() - 2]);
        }
    }
    is_ascii_chars_encode_utf8(tpm.quote@);
}

/// Information tells what was measured and what the TPM delivered in the very
/// session that it was asked for, and how the service is configured.
pub proof fn law_information_tells_what_was_delivered(
    start: SessionModel,
    history: Seq<EventModel>,
    seconds: nat,
    response: InformationTpmResponse,
)
    requires
        start.phase == Phase::Measure,
        start.nonce is None,
        possible(start, history),
        after(start, history).phase == Phase::Done,
        session::information_of(after(start, history), seconds, response),
    ensures
        response.backend@ == "tpm2-tools"@,
        response.simulator@ == encoding::lossy_text(start.config.simulator_dir),
        response.tcti@ == start.config.tcti,
        response.pcr_index == start.config.pcr_index,
        response.ak_handle@ == start.config.ak_handle,
        response.pcr_value@ == encoding::hex_text(contents(history, 5)),
        told_scan(history).outcome() matches Ok(folder) && ({
            &&& response.measured_directory@ == folder.directory
            &&& response.hash_algorithm@ == folder.hash_algorithm
            &&& response.measurement.total_hash@ == folder.total_hash
            &&& response.measurement.time_stamp@ == payload::stamp_text(seconds)
            &&& response.measurement.measurement@.len() == folder.measurement.len()
            &&& forall|i: int|
                0 <= i < folder.measurement.len() ==> (
                #[trigger] response.measurement.measurement@[i])@ == folder.measurement[i]
        }),
        after(start, history).pem matches Some(pem) ==> (response.ak_pubkey matches Some(shown)
            && shown@ == pem),
        after(start, history).pem is None ==> response.ak_pubkey is None,
{
    law_nothing_is_fabricated(start, history);
    law_sessions_keep_what_they_were_given(start, history);
    let folder = told_scan(history).outcome()->Ok_0;
    let block = response.measurement.measurement@;
    assert(payload::file_views(block) == folder.measurement);
    assert forall|i: int| 0 <= i < folder.measurement.len() implies (#[trigger] block[i])@
        == folder.measurement[i] by {
        assert(payload::file_views(block)[i] == block[i]@);
    }
}

/// The public key of a session that ended with success is the one that it was
/// given, or the text that it read last. There is none only where the last
/// command failed, or the file could not be read. A quote with a known key has
/// that key.
pub proof fn law_public_key_is_what_was_read(start: SessionModel, history: Seq<EventModel>)
    requires
        start.phase == Phase::Measure,
        possible(start, history),
        after(start, history).phase == Phase::Done,
    ensures
        history.len() > 0,
        after(start, history).pem matches Some(pem) ==> start.cached == Some(pem)
            || history.last() == EventModel::Text(Ok(pem)),
        after(start, history).pem is None ==> (history.last() matches EventModel::Text(Err(_)))
            || (history.last() matches EventModel::Ran(outcome) && !(outcome is Succeeded)),
        start.cached is Some && start.nonce is Some ==> after(start, history).pem == start.cached,
{
    let before = history.drop_last();
    let event = history.last();
    let session = after(start, before);
    law_sessions_keep_what_they_were_given(start, before);
    lemma_grounded(start, before);
    if event is Ran {
        lemma_ran(session, before, event);
    }
    if start.cached is Some {
        law_public_key_is_read_once(start, before);
    }
}

} // verus!
