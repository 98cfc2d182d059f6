//! The platform configuration registers of a TPM, as the command lines of a
//! session address them.
//!
//! [`Registers`] reacts to what a command says, not to why it was issued: a
//! command changes the register that its arguments name, and no other. So what
//! is stated here holds only of sessions whose commands agree about the
//! register.

use crate::encoding;
use crate::text;
use crate::tpm::binding;
use crate::tpm::history;
use crate::tpm::history::{after, possible};
use crate::tpm::measure;
use crate::tpm::session;
use crate::tpm::session::{EventModel, Phase, SessionModel, StepModel};
use crate::tpm::walk::World;
use vstd::prelude::*;
use vstd::utf8::*;

verus! {

// ---------------------------------------------------------------------------
// Arguments
// ---------------------------------------------------------------------------

/// What stands before the first `c` in `s`.
pub open spec fn ahead_of_first(s: Seq<char>, c: char) -> Seq<char>
    decreases s.len(),
{
    if s.len() == 0 || s[0] == c {
        Seq::empty()
    } else {
        seq![s[0]] + ahead_of_first(s.drop_first(), c)
    }
}

/// What stands behind the last `c` in `s`.
pub open spec fn behind_last(s: Seq<char>, c: char) -> Seq<char>
    decreases s.len(),
{
    if s.len() == 0 || s.last() == c {
        Seq::empty()
    } else {
        behind_last(s.drop_last(), c).push(s.last())
    }
}

/// The first `c` in `a + [c] + b` is behind `a`, if there is none in `a`.
proof fn lemma_ahead_of_first(a: Seq<char>, b: Seq<char>, c: char)
    requires
        !a.contains(c),
    ensures
        ahead_of_first(a + seq![c] + b, c) == a,
    decreases a.len(),
{
    let whole = a + seq![c] + b;
    if a.len() == 0 {
        assert(whole[0] == c);
        assert(a == Seq::<char>::empty());
    } else {
        let rest = a.drop_first();
        assert(a.contains(a[0]));
        assert(whole.drop_first() == rest + seq![c] + b);
        assert forall|i: int| 0 <= i < rest.len() implies rest[i] != c by {
            assert(a.contains(a[i + 1]));
        }
        lemma_ahead_of_first(rest, b, c);
        assert(seq![a[0]] + rest == a);
    }
}

/// The last `c` in `a + [c] + b` is before `b`, if there is none in `b`.
proof fn lemma_behind_last(a: Seq<char>, b: Seq<char>, c: char)
    requires
        !b.contains(c),
    ensures
        behind_last(a + seq![c] + b, c) == b,
    decreases b.len(),
{
    let whole = a + seq![c] + b;
    if b.len() == 0 {
        assert(whole.last() == c);
        assert(b == Seq::<char>::empty());
    } else {
        let rest = b.drop_last();
        assert(b.contains(b.last()));
        assert(whole.last() == b.last());
        assert(whole.drop_last() == a + seq![c] + rest);
        assert forall|i: int| 0 <= i < rest.len() implies rest[i] != c by {
            assert(b.contains(b[i]));
        }
        lemma_behind_last(a, rest, c);
        assert(rest.push(b.last()) == b);
    }
}

/// `INDEX:BANK=DIGEST`: what a register is extended with.
#[verifier::ext_equal]
pub struct Extension {
    pub index: Seq<char>,
    pub bank: Seq<char>,
    pub digest: Seq<char>,
}

/// What the argument of `tpm2_pcrextend` says.
pub open spec fn extension(arg: Seq<char>) -> Extension {
    let index = ahead_of_first(arg, ':');
    let digest = behind_last(arg, '=');
    Extension {
        index,
        bank: arg.subrange(index.len() as int + 1, arg.len() - digest.len() - 1),
        digest,
    }
}

/// The register that a selection `BANK:INDEX` names: its bank and its index.
pub open spec fn selected(selection: Seq<char>) -> (Seq<char>, Seq<char>) {
    let index = behind_last(selection, ':');
    (selection.take(selection.len() - index.len() - 1), index)
}

// ---------------------------------------------------------------------------
// Registers
// ---------------------------------------------------------------------------

/// What the registers of a TPM hold, by bank and index.
pub struct Held {
    pub at: spec_fn(Seq<char>, Seq<char>) -> Seq<u8>,
}

/// How the registers of some TPM react to commands.
pub struct Registers {
    /// What a register of a bank holds once it is reset.
    pub reset: spec_fn(Seq<char>) -> Seq<u8>,
    /// What a register of a bank holds once what it held is extended with a
    /// digest.
    pub extend: spec_fn(Seq<char>, Seq<u8>, Seq<char>) -> Seq<u8>,
    /// What anything else leaves of what the registers held.
    pub otherwise: spec_fn(StepModel, EventModel, Held) -> Held,
}

impl Registers {
    /// What the registers hold after a step that ended with `event`. Resetting
    /// a register resets it in every bank; extending it changes the named bank
    /// only; reading changes nothing.
    pub open spec fn effect(self, step: StepModel, event: EventModel, held: Held) -> Held {
        let worked = event matches EventModel::Ran(outcome) && outcome is Succeeded;
        match step {
            StepModel::Run { binary, args } => if worked && binary == "tpm2_pcrreset"@ {
                Held {
                    at: |bank: Seq<char>, index: Seq<char>|
                        if index == args[0] {
                            (self.reset)(bank)
                        } else {
                            (held.at)(bank, index)
                        },
                }
            } else if worked && binary == "tpm2_pcrextend"@ {
                let e = extension(args[0]);
                Held {
                    at: |bank: Seq<char>, index: Seq<char>|
                        if index == e.index && bank == e.bank {
                            (self.extend)(bank, (held.at)(bank, index), e.digest)
                        } else {
                            (held.at)(bank, index)
                        },
                }
            } else if binary == "tpm2_pcrread"@ {
                held
            } else {
                (self.otherwise)(step, event, held)
            },
            StepModel::ReadFile(_) => held,
            _ => (self.otherwise)(step, event, held),
        }
    }

    /// What the registers hold after the events of a history, if they held
    /// `held` before.
    pub open spec fn held_after(
        self,
        start: SessionModel,
        history: Seq<EventModel>,
        held: Held,
    ) -> Held
        decreases history.len(),
    {
        if history.len() == 0 {
            held
        } else {
            let before = history.drop_last();
            self.effect(
                after(start, before).step(),
                history.last(),
                self.held_after(start, before, held),
            )
        }
    }

    /// Whether a bank is one of SHA-256: reset, its registers hold zeros, and
    /// extending one takes the digest over what it held and the new digest.
    pub open spec fn hashes(self, bank: Seq<char>) -> bool {
        &&& (self.reset)(bank) == Seq::new(32, |i: int| 0u8)
        &&& forall|held: Seq<u8>, digest: Seq<char>|
            #[trigger] (self.extend)(bank, held, digest) == encoding::sha256(
                held + encoding::unhexed(encode_utf8(digest)),
            )
    }

    /// Whether a session has ended with success, and what was delivered for the
    /// register that it read is what that register held, if the registers held
    /// `held` before the session.
    pub open spec fn answered(
        self,
        start: SessionModel,
        history: Seq<EventModel>,
        held: Held,
    ) -> bool {
        &&& start.phase == Phase::Measure
        &&& possible(start, history)
        &&& after(start, history).phase == Phase::Done
        &&& after(start, history.take(4)).step() matches StepModel::Run { binary: _, args }
        &&& history::contents(history, 5) == (self.held_after(
            start,
            history.take(5),
            held,
        ).at)(selected(args[0]).0, selected(args[0]).1)
    }
}

// ---------------------------------------------------------------------------
// Laws
// ---------------------------------------------------------------------------

/// The decimal form of a number has digits only.
proof fn lemma_index_is_plain(n: nat)
    ensures
        !text::decimal_text(n).contains(':'),
{
    text::law_decimal_round_trip(n);
}

/// Hexadecimal digits hold no equals sign.
proof fn lemma_digest_is_plain(bytes: Seq<u8>)
    ensures
        !encoding::hex_text(bytes).contains('='),
{
    let digits = encoding::hex_text(bytes);
    assert forall|i: int| 0 <= i < digits.len() implies digits[i] != '=' by {
        encoding::law_hex_digit_pairs(bytes, i / 2);
        reveal_strlit("0123456789abcdef");
    }
}

/// The commands of a session to the PCR address one register: the one that is
/// reset is the one that is extended, in the configured bank and with the digest
/// of the measured folder, and the one that is read and quoted.
pub proof fn law_pcr_commands_address_one_register(session: SessionModel, bytes: Seq<u8>)
    requires
        session.folder matches Some(folder) && folder.total_hash == encoding::hex_text(bytes),
    ensures
        ({
            let index = session.at(Phase::Reset).arguments()[0];
            let bank = session.config.hash_algorithm;
            let e = extension(session.at(Phase::Extend).arguments()[0]);
            &&& index == text::decimal_text(session.config.pcr_index as nat)
            &&& e == (Extension { index, bank, digest: encoding::hex_text(bytes) })
            &&& selected(session.at(Phase::PcrRead).arguments()[0]) == (bank, index)
            &&& selected(session.at(Phase::Quote).arguments()[5]) == (bank, index)
        }),
{
    reveal_strlit(":");
    reveal_strlit("=");
    let index = text::decimal_text(session.config.pcr_index as nat);
    let bank = session.config.hash_algorithm;
    let digest = encoding::hex_text(bytes);
    lemma_index_is_plain(session.config.pcr_index as nat);
    lemma_digest_is_plain(bytes);
    let arg = session.at(Phase::Extend).arguments()[0];
    assert(arg =~= index + seq![':'] + (bank + seq!['='] + digest));
    assert(arg =~= (index + seq![':'] + bank) + seq!['='] + digest);
    lemma_ahead_of_first(index, bank + seq!['='] + digest, ':');
    lemma_behind_last(index + seq![':'] + bank, digest, '=');
    assert(arg.subrange(index.len() as int + 1, arg.len() - digest.len() - 1) =~= bank);
    let selection = bank + ":"@ + index;
    assert(selection =~= bank + seq![':'] + index);
    lemma_behind_last(bank, index, ':');
    assert(selection.take(selection.len() - index.len() - 1) =~= bank);
}

/// What the configured register holds when it is read does not depend on what
/// any register held before: it is what a reset register of the configured bank
/// holds once it is extended with the digest of the measured folder. Of the
/// registers, the reset and the extend touch no other one.
pub proof fn law_register_is_reset_not_accumulated(
    registers: Registers,
    start: SessionModel,
    history: Seq<EventModel>,
    held: Held,
)
    requires
        start.phase == Phase::Measure,
        possible(start, history),
        history.len() > 5,
    ensures
        after(start, history.take(4)).step() matches StepModel::Run { binary: _, args } && ({
            let (bank, index) = selected(args[0]);
            &&& bank == start.config.hash_algorithm
            &&& index == text::decimal_text(start.config.pcr_index as nat)
            &&& history::told_scan(history).outcome() matches Ok(folder)
            &&& (registers.held_after(start, history.take(5), held).at)(bank, index) == (
            registers.extend)(bank, (registers.reset)(bank), folder.total_hash)
        }),
{
    reveal_strlit("tpm2_pcrreset");
    reveal_strlit("tpm2_pcrextend");
    reveal_strlit("tpm2_pcrread");
    assert("tpm2_pcrreset"@[8] == 'r' && "tpm2_pcrextend"@[8] == 'e');
    assert("tpm2_pcrreset"@.len() == 13 && "tpm2_pcrextend"@.len() == 14);
    assert("tpm2_pcrread"@.len() == 12);
    history::law_pcr_phases(start, history);
    let (h2, h3, h4, h5) = (
        history.take(2),
        history.take(3),
        history.take(4),
        history.take(5),
    );
    assert(h5.drop_last() == h4 && h4.drop_last() == h3 && h3.drop_last() == h2);
    assert(h5.last() == history[4] && h4.last() == history[3] && h3.last() == history[2]);
    let (resetting, extending, reading) = (after(start, h2), after(start, h3), after(start, h4));
    let folder = history::told_scan(history).outcome()->Ok_0;
    let bytes = encoding::sha256(measure::total_bytes(history::told_scan(history).measured));
    assert(folder.total_hash == encoding::hex_text(bytes));
    law_pcr_commands_address_one_register(resetting, bytes);
    law_pcr_commands_address_one_register(extending, bytes);
    law_pcr_commands_address_one_register(reading, bytes);
    session::law_pcr_commands_name_the_configured_pcr(resetting, folder);
    session::law_pcr_commands_name_the_configured_pcr(extending, folder);
    session::law_pcr_commands_name_the_configured_pcr(reading, folder);
    assert(resetting.at(Phase::Reset) == resetting);
    assert(extending.at(Phase::Extend) == extending);
    assert(reading.at(Phase::PcrRead) == reading);
    let bank = start.config.hash_algorithm;
    let index = text::decimal_text(start.config.pcr_index as nat);
    let x2 = registers.held_after(start, h2, held);
    let x3 = registers.effect(resetting.step(), history[2], x2);
    let x4 = registers.effect(extending.step(), history[3], x3);
    assert(registers.held_after(start, h3, held) == x3);
    assert(registers.held_after(start, h4, held) == x4);
    assert(registers.held_after(start, h5, held) == registers.effect(
        reading.step(),
        history[4],
        x4,
    ));
    assert((x3.at)(bank, index) == (registers.reset)(bank));
    assert((x4.at)(bank, index) == (registers.extend)(
        bank,
        (registers.reset)(bank),
        folder.total_hash,
    ));
}

/// A session touches the configured register only: from the reset to the read,
/// every other register keeps what it held.
pub proof fn law_other_registers_are_left_alone(
    registers: Registers,
    start: SessionModel,
    history: Seq<EventModel>,
    held: Held,
    bank: Seq<char>,
    index: Seq<char>,
)
    requires
        start.phase == Phase::Measure,
        possible(start, history),
        history.len() > 5,
        index != text::decimal_text(start.config.pcr_index as nat),
    ensures
        (registers.held_after(start, history.take(5), held).at)(bank, index) == (
        registers.held_after(start, history.take(2), held).at)(bank, index),
{
    reveal_strlit("tpm2_pcrreset");
    reveal_strlit("tpm2_pcrextend");
    reveal_strlit("tpm2_pcrread");
    assert("tpm2_pcrreset"@[8] == 'r' && "tpm2_pcrextend"@[8] == 'e');
    assert("tpm2_pcrreset"@.len() == 13 && "tpm2_pcrextend"@.len() == 14);
    assert("tpm2_pcrread"@.len() == 12);
    history::law_pcr_phases(start, history);
    let (h2, h3, h4, h5) = (
        history.take(2),
        history.take(3),
        history.take(4),
        history.take(5),
    );
    assert(h5.drop_last() == h4 && h4.drop_last() == h3 && h3.drop_last() == h2);
    assert(h5.last() == history[4] && h4.last() == history[3] && h3.last() == history[2]);
    let (resetting, extending, reading) = (after(start, h2), after(start, h3), after(start, h4));
    let folder = history::told_scan(history).outcome()->Ok_0;
    let bytes = encoding::sha256(measure::total_bytes(history::told_scan(history).measured));
    law_pcr_commands_address_one_register(extending, bytes);
    session::law_pcr_commands_name_the_configured_pcr(resetting, folder);
    session::law_pcr_commands_name_the_configured_pcr(extending, folder);
    session::law_pcr_commands_name_the_configured_pcr(reading, folder);
    assert(resetting.at(Phase::Reset) == resetting);
    assert(extending.at(Phase::Extend) == extending);
    assert(reading.at(Phase::PcrRead) == reading);
    let x2 = registers.held_after(start, h2, held);
    let x3 = registers.effect(resetting.step(), history[2], x2);
    let x4 = registers.effect(extending.step(), history[3], x3);
    assert(registers.held_after(start, h3, held) == x3);
    assert(registers.held_after(start, h4, held) == x4);
    assert((x3.at)(bank, index) == (x2.at)(bank, index));
    assert((x4.at)(bank, index) == (x3.at)(bank, index));
}

/// Two sessions with one configuration, on folders with the same digest, report
/// the same PCR value, whatever the registers held before each of them.
pub proof fn law_equal_digests_are_reported_alike(
    registers: Registers,
    a: SessionModel,
    history_a: Seq<EventModel>,
    held_a: Held,
    b: SessionModel,
    history_b: Seq<EventModel>,
    held_b: Held,
)
    requires
        a.config == b.config,
        registers.answered(a, history_a, held_a),
        registers.answered(b, history_b, held_b),
        after(a, history_a).digest() == after(b, history_b).digest(),
    ensures
        after(a, history_a).pcr_value == after(b, history_b).pcr_value,
{
    history::law_nothing_is_fabricated(a, history_a);
    history::law_nothing_is_fabricated(b, history_b);
    law_register_is_reset_not_accumulated(registers, a, history_a, held_a);
    law_register_is_reset_not_accumulated(registers, b, history_b, held_b);
}

/// Measuring an unchanged directory again reports the same folder and the same
/// PCR value, whichever PCR is configured and whatever the registers held before.
/// Where the configured bank is one of SHA-256, the value is not the digest of
/// the folder, unless what the digest is taken over collides under SHA-256 with
/// what the register was extended to.
pub proof fn law_an_unchanged_directory_is_reported_alike(
    registers: Registers,
    world: World,
    root: Seq<u8>,
    depth: nat,
    a: SessionModel,
    history_a: Seq<EventModel>,
    held_a: Held,
    steps_a: nat,
    b: SessionModel,
    history_b: Seq<EventModel>,
    held_b: Held,
    steps_b: nat,
)
    requires
        a.config == b.config,
        history::measurable_in(world, a, root, depth),
        registers.answered(a, history_a, held_a),
        registers.answered(b, history_b, held_b),
        history::scanned_in(world, a, history_a, steps_a),
        history::scanned_in(world, b, history_b, steps_b),
    ensures
        after(a, history_a).folder == Some(world.measurement(root, depth)),
        after(b, history_b).folder == Some(world.measurement(root, depth)),
        after(a, history_a).pcr_value == after(b, history_b).pcr_value,
        registers.hashes(a.config.hash_algorithm) && measure::measured_well(
            history::told_scan(history_a),
        ) ==> {
            let total = measure::total_bytes(history::told_scan(history_a).measured);
            let zeros = Seq::new(32, |i: int| 0u8);
            after(a, history_a).pcr_value != after(a, history_a).digest() || binding::collides(
                total,
                zeros + encoding::sha256(total),
            )
        },
{
    history::law_sessions_measure_the_configured_directory(
        world,
        root,
        depth,
        a,
        history_a,
        steps_a,
    );
    history::law_sessions_measure_the_configured_directory(
        world,
        root,
        depth,
        b,
        history_b,
        steps_b,
    );
    law_equal_digests_are_reported_alike(
        registers,
        a,
        history_a,
        held_a,
        b,
        history_b,
        held_b,
    );
    if registers.hashes(a.config.hash_algorithm) && measure::measured_well(
        history::told_scan(history_a),
    ) {
        history::law_nothing_is_fabricated(a, history_a);
        law_register_is_reset_not_accumulated(registers, a, history_a, held_a);
        let records = history::told_scan(history_a).measured;
        let total = measure::total_bytes(records);
        let zeros = Seq::new(32, |i: int| 0u8);
        let digest = encoding::sha256(total);
        let extended = encoding::sha256(zeros + digest);
        encoding::law_hex_round_trip(digest);
        encoding::law_hex_round_trip(extended);
        assert(encoding::hex_text(digest).len() == 2 * digest.len());
        if total == zeros + digest {
            binding::lemma_two_digests_are_no_records(records);
            assert(total[0] == zeros[0]);
        }
    }
}

} // verus!
