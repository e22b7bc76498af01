//! What the functions behind the operations promise of the values that they are
//! given: the rules that judge readings, and the values that readings, snapshots
//! and messages are made of.
//!
//! Each law speaks of any call of the function, by what its contract says of the
//! result.

use crate::error::TestkitError;
use crate::sdk::{LedgerState, Step, TestEnv, UnderTest};
use crate::text::{integer, natural, natural_text, natural_text_reads_back, natural_value};
use crate::ttl::payload::{panic_message, PanicPayload};
use crate::ttl::promises::bulk::{bulk_text, stale_lines_are_the_text};
use crate::ttl::promises::measured::{bump_text, delta_text, no_bump_text};
use crate::ttl::reading::Reading;
use crate::ttl::record::says;
use crate::ttl::snapshot::{StorageKind, TtlSnapshot};
use crate::ttl::verdict::{
    check_at_least, check_bump, check_bump_all, check_change, check_last_moment, check_no_bump,
    check_survival, ledgers_until_expiry, ledgers_until_last_moment, LabelledTtl,
};
use crate::ttl::world::place;
use soroban_sdk::{Address, Env, Val};
use vstd::prelude::*;

verus! {

/// Whether the text is a number in decimal: digits, with no 0 in front of others.
pub open spec fn is_decimal(text: Seq<char>) -> bool {
    &&& text.len() > 0
    &&& text[0] == '0' ==> text.len() == 1
    &&& forall|i: int| 0 <= i < text.len() ==> '0' <= #[trigger] text[i] <= '9'
}

/// Numbers are written so that they can be read back, in one way only.
proof fn naturals_are_decimal(n: nat)
    ensures
        is_decimal(natural_text(n)),
        n > 0 ==> natural_text(n)[0] != '0',
        natural_value(natural_text(n)) == n,
    decreases n,
{
    natural_text_reads_back(n);
    if n >= 10 {
        naturals_are_decimal(n / 10);
    }
}

/// A natural number is written in decimal, and can be read back.
pub proof fn natural_writes_the_number(n: u64, text: String)
    requires
        call_ensures(natural, (n,), text),
    ensures
        is_decimal(text@),
        natural_value(text@) == n,
{
    naturals_are_decimal(n as nat);
}

/// An integer is written in decimal behind its sign, which stands where it is
/// negative, and can be read back.
pub proof fn integer_writes_the_number(n: i64, text: String)
    requires
        call_ensures(integer, (n,), text),
    ensures
        n >= 0 ==> is_decimal(text@) && natural_value(text@) == n,
        n < 0 ==> text@.len() > 0 && text@[0] == '-' && is_decimal(text@.skip(1)) && natural_value(
            text@.skip(1),
        ) == -n,
{
    if n < 0 {
        naturals_are_decimal((-n) as nat);
        assert(text@.skip(1) =~= natural_text((-n) as nat));
    } else {
        naturals_are_decimal(n as nat);
    }
}

/// A call is held to have extended a TTL exactly where the TTL grew, and the
/// report says what it was and what it is.
pub proof fn bump_rule(kind: StorageKind, from: u32, to: u32, result: Result<(), TestkitError>)
    requires
        call_ensures(check_bump, (kind, from, to), result),
    ensures
        result is Ok <==> to > from,
        result is Err ==> says(result, bump_text(kind, from, to)),
{
}

/// A call is held not to have extended a TTL exactly where the TTL did not grow,
/// and the report says what it was and what it is.
pub proof fn no_bump_rule(kind: StorageKind, from: u32, to: u32, result: Result<(), TestkitError>)
    requires
        call_ensures(check_no_bump, (kind, from, to), result),
    ensures
        result is Ok <==> to <= from,
        result is Err ==> says(result, no_bump_text(kind, from, to)),
{
}

/// A call is held to have changed a TTL by an amount exactly where what was, with
/// the amount added, is what is; the report says the two and by how much they
/// differ.
pub proof fn delta_rule(
    kind: StorageKind,
    expected: i64,
    from: u32,
    to: u32,
    result: Result<(), TestkitError>,
)
    requires
        call_ensures(check_change, (kind, expected, from, to), result),
    ensures
        result is Ok <==> from + expected == to,
        result is Err ==> says(result, delta_text(kind, expected, from, to)),
{
}

/// A TTL is held to a minimum exactly where it is that or more, and the report
/// says both.
pub proof fn at_least_rule(
    kind: StorageKind,
    ttl: u32,
    min_ttl: u32,
    result: Result<(), TestkitError>,
)
    requires
        call_ensures(check_at_least, (kind, ttl, min_ttl), result),
    ensures
        result is Ok <==> ttl >= min_ttl,
        result is Err ==> says(
            result,
            "expected the "@ + kind.label() + " TTL to be at least "@ + natural_text(min_ttl as nat)
                + " ledgers, but it is "@ + natural_text(ttl as nat),
        ),
{
}

/// A call is held to have extended all TTLs exactly where each of them grew, and
/// the report has a line for each that did not, in order, and none else.
pub proof fn bulk_rule(
    kind: StorageKind,
    entries: &Vec<LabelledTtl>,
    result: Result<(), TestkitError>,
)
    requires
        call_ensures(check_bump_all, (kind, entries), result),
    ensures
        result is Ok <==> forall|i: int|
            0 <= i < entries@.len() ==> (#[trigger] entries@[i]).after > entries@[i].before,
        result is Err ==> says(result, bulk_text(kind, entries@)),
{
    stale_lines_are_the_text(entries@);
    if result is Ok {
        assert forall|i: int| 0 <= i < entries@.len() implies (#[trigger] entries@[i]).after
            > entries@[i].before by {
            assert(entries@[i].bumped());
        }
    } else {
        let i = choose|i: int| 0 <= i < entries@.len() && !(#[trigger] entries@[i]).bumped();
        assert(entries@[i].after <= entries@[i].before);
    }
}

/// A call is held to survive expiry exactly where it did not panic, and the report
/// forwards the message where it did.
pub proof fn survival_rule(
    kind: StorageKind,
    run: &Result<(), PanicPayload>,
    result: Result<(), TestkitError>,
)
    requires
        call_ensures(check_survival, (kind, run), result),
    ensures
        result is Ok <==> run is Ok,
        *run matches Err(payload) ==> says(
            result,
            "expected the contract to survive "@ + kind.label()
                + " storage expiry gracefully, but it panicked: "@ + payload.text(),
        ),
{
}

/// A call is held to run before expiry exactly where it did not panic, and the
/// report forwards the message where it did.
pub proof fn last_moment_rule(
    kind: StorageKind,
    run: &Result<(), PanicPayload>,
    result: Result<(), TestkitError>,
)
    requires
        call_ensures(check_last_moment, (kind, run), result),
    ensures
        result is Ok <==> run is Ok,
        *run matches Err(payload) ==> says(
            result,
            "closure panicked when run just before "@ + kind.label() + " expiry: "@
                + payload.text(),
        ),
{
}

/// The advance to the last moment leaves exactly one of the ledgers; there is none
/// where none is left.
pub proof fn last_moment_leaves_one_ledger(
    kind: StorageKind,
    ttl: u32,
    result: Result<u32, TestkitError>,
)
    requires
        call_ensures(ledgers_until_last_moment, (kind, ttl), result),
    ensures
        ttl > 0 ==> (result matches Ok(ledgers) && ledgers + 1 == ttl),
        ttl == 0 ==> (result matches Err(TestkitError::AssertionFailed(text)) && text@
            == "cannot run before expiry: "@ + kind.label()
            + " entry has already expired (TTL is 0)"@),
{
}

/// The advance past every life is one more ledger than any life may have, as far
/// as there are that many.
pub proof fn expiry_is_one_past_the_longest_life(max_entry_ttl: u32, ledgers: u32)
    requires
        call_ensures(ledgers_until_expiry, (max_entry_ttl,), ledgers),
    ensures
        max_entry_ttl < u32::MAX ==> ledgers == max_entry_ttl + 1,
        max_entry_ttl == u32::MAX ==> ledgers == u32::MAX,
{
}

/// A sequence number that many ledgers later is that much greater, and there is
/// one exactly where it is one.
pub proof fn later_sequences_are_sums(
    state: &LedgerState,
    ledgers: u32,
    sequence: Option<u32>,
)
    requires
        call_ensures(LedgerState::advanced, (state, ledgers), sequence),
    ensures
        sequence matches Some(later) ==> later == state.sequence + ledgers,
        sequence is None <==> state.sequence + ledgers > u32::MAX,
{
}

/// The life that a reading tells is the one that is stored, for a persistent entry
/// that is, and else the one that the host gave.
pub proof fn stored_lives_come_first(kind: StorageKind, reading: &Reading, life: Option<u32>)
    requires
        call_ensures(Reading::live_until, (reading, kind), life),
    ensures
        kind is Persistent && reading.stored is Some ==> life == reading.stored,
        kind is Persistent && reading.stored is None ==> life == reading.fetched,
        !(kind is Persistent) ==> life == reading.fetched,
{
}

/// The TTL that a reading tells, counted from the ledger that was read, reaches
/// the end of the life that was found; there is none where there is no life or it
/// has ended, and where the ledger could not be read.
pub proof fn ttls_reach_the_end_of_the_life(
    kind: StorageKind,
    reading: &Reading,
    life: Option<u32>,
    result: Result<u32, TestkitError>,
)
    requires
        call_ensures(Reading::live_until, (reading, kind), life),
        call_ensures(Reading::ttl, (reading, kind), result),
    ensures
        match (life, reading.state) {
            (None, _) => result == Err::<u32, TestkitError>(TestkitError::EntryUnavailable),
            (Some(_), None) => result == Err::<u32, TestkitError>(TestkitError::LedgerUnavailable),
            (Some(life), Some(now)) => match result {
                Ok(ttl) => now.sequence + ttl == life,
                Err(error) => error == TestkitError::EntryUnavailable && life < now.sequence,
            },
        },
{
}

/// A snapshot gives back what it was taken of.
pub proof fn snapshots_give_back_what_they_hold(
    kind: StorageKind,
    ttl: u32,
    snapshot: TtlSnapshot,
    given_kind: StorageKind,
    given_ttl: u32,
)
    requires
        call_ensures(TtlSnapshot::taken, (kind, ttl), snapshot),
        call_ensures(TtlSnapshot::kind, (&snapshot,), given_kind),
        call_ensures(TtlSnapshot::ttl, (&snapshot,), given_ttl),
    ensures
        given_kind == kind,
        given_ttl == ttl,
        snapshot.kind_held() == kind,
        snapshot.ttl_held() == ttl,
{
}

/// The difference to a later snapshot, added to the TTL of the earlier one, is the
/// TTL of the later one.
pub proof fn differences_lead_to_the_later_ttl(
    kind: StorageKind,
    later_kind: StorageKind,
    ttl: u32,
    later_ttl: u32,
    snapshot: TtlSnapshot,
    later: TtlSnapshot,
    change: i64,
)
    requires
        call_ensures(TtlSnapshot::taken, (kind, ttl), snapshot),
        call_ensures(TtlSnapshot::taken, (later_kind, later_ttl), later),
        call_ensures(TtlSnapshot::diff, (&snapshot, &later), change),
    ensures
        ttl + change == later_ttl,
{
}

/// The message of a panic is the string that it carried, where it carried one.
pub proof fn panics_are_told_by_their_string(payload: &PanicPayload, message: String)
    requires
        call_ensures(panic_message, (payload,), message),
    ensures
        *payload matches PanicPayload::Literal(text) ==> message@ == text@,
        *payload matches PanicPayload::Owned(text) ==> message@ == text@,
        payload is Opaque ==> message@ == "<non-string panic payload>"@,
        message@ == payload.text(),
{
}

/// The message of a failed assertion is its text, and the other errors have one of
/// their own.
pub proof fn errors_are_told_by_their_text(error: &TestkitError, message: String)
    requires
        call_ensures(TestkitError::message, (error,), message),
    ensures
        *error matches TestkitError::AssertionFailed(text) ==> message@ == text@,
        error is EntryUnavailable ==> message@ == "there is no storage entry to read a TTL from"@,
        error is LedgerUnavailable ==> message@ == "the ledger information is unavailable"@,
        error is SequenceOverflow ==> message@ == "the ledger sequence number would overflow"@,
{
}

/// Entries of different contracts, kinds or keys stand in different places, but
/// for the instance, of which a contract has one whatever the key.
pub proof fn entries_stand_apart(
    contract: Address,
    kind: StorageKind,
    key: Val,
    other_contract: Address,
    other_kind: StorageKind,
    other_key: Val,
)
    ensures
        place(contract, kind, key) == place(other_contract, other_kind, other_key) <==> {
            &&& contract == other_contract
            &&& kind == other_kind
            &&& kind is Instance || key == other_key
        },
{
}

/// A new environment is the one that it was given, with an empty record.
pub proof fn environments_start_with_nothing_done(env: Env, wrapped: TestEnv, given: &Env)
    requires
        call_ensures(TestEnv::new, (env,), wrapped),
        call_ensures(TestEnv::env, (&wrapped,), given),
    ensures
        wrapped.steps() == Seq::<Step>::empty(),
        *given == env,
{
}

/// Code that was handed over is the code that is run.
pub proof fn code_is_handed_over_as_it_is<F>(f: F, code: UnderTest<F>)
    requires
        call_ensures(UnderTest::<F>::new, (f,), code),
    ensures
        code.code() == f,
{
}

} // verus!
