//! What holds of the readings and assertions together.

use crate::env::{advance_result, advance_steps};
use crate::error::{reports, TestkitError};
use crate::sdk::{run_step, LedgerState, Step};
use crate::ttl::expiry::{
    around_steps, both, expire_result, expire_steps, labelled, last_moment_steps,
    last_run_steps, snapshot_tells, survival_steps,
};
use crate::ttl::payload::PanicPayload;
use crate::ttl::reading::{goes_through, last_error, ttl_at, Reading};
use crate::ttl::snapshot::{ttl_change, StorageKind, TtlSnapshot};
use crate::ttl::verdict::{
    at_least_failure, bump_all_failure, bump_failure, change_failure, expiry_advance,
    last_moment_failure, no_bump_failure, stale_lines, survival_failure, LabelledTtl,
};
use crate::ttl::world::{history, history_splits, place, Place, World};
use soroban_sdk::{Address, Val};
use vstd::prelude::*;

verus! {

/// A reading tells the TTL that the entry has, and fails where it has none; and it
/// leaves the ledger and every TTL as they were. An expired instance is left out:
/// the host restores it.
pub proof fn reading_tells_and_leaves_the_ttl(
    worlds: Seq<World>,
    contract: Address,
    kind: StorageKind,
    key: Val,
    reading: Reading,
)
    requires
        history(worlds, reading.steps(contract, kind, key)),
        kind is Instance ==> !worlds[0].expired(place(contract, kind, key)),
    ensures
        reading.outcome(kind) == match worlds[0].ttl(place(contract, kind, key)) {
            Some(ttl) => Ok::<u32, TestkitError>(ttl),
            None => Err(TestkitError::EntryUnavailable),
        },
        worlds.last().same_ttls(worlds[0]),
{
    let steps = reading.steps(contract, kind, key);
    assert(worlds[0].leads(steps[0], worlds[1]));
    assert(worlds[1].leads(steps[1], worlds[2]));
    if steps.len() > 2 {
        assert(worlds[2].leads(steps[2], worlds[3]));
    }
    if steps.len() > 3 {
        assert(worlds[3].leads(steps[3], worlds[4]));
    }
}

/// Reading a TTL twice in a row gives the same value, and leaves the ledger and
/// every TTL as they were: to read a TTL is not to extend it.
pub proof fn reading_twice_tells_the_same(
    worlds: Seq<World>,
    later_worlds: Seq<World>,
    contract: Address,
    kind: StorageKind,
    key: Val,
    reading: Reading,
    later: Reading,
)
    requires
        history(worlds, reading.steps(contract, kind, key)),
        history(later_worlds, later.steps(contract, kind, key)),
        later_worlds[0] == worlds.last(),
        kind is Instance ==> !worlds[0].expired(place(contract, kind, key)),
    ensures
        later.outcome(kind) == reading.outcome(kind),
        later_worlds.last().same_ttls(worlds[0]),
{
    let at = place(contract, kind, key);
    reading_tells_and_leaves_the_ttl(worlds, contract, kind, key, reading);
    assert(kind is Instance ==> !later_worlds[0].expired(at)) by {
        if kind is Instance {
            let steps = reading.steps(contract, kind, key);
            assert(worlds[0].leads(steps[0], worlds[1]));
            assert(worlds[1].leads(steps[1], worlds[2]));
            if steps.len() > 2 {
                assert(worlds[2].leads(steps[2], worlds[3]));
            }
        }
    }
    reading_tells_and_leaves_the_ttl(later_worlds, contract, kind, key, later);
    assert(later_worlds[0].ttl(at) == worlds[0].ttl(at));
}

/// A snapshot agrees with a reading of the same ledger: it fails where the
/// reading fails, and holds the kind and the TTL where it does not; and it leaves
/// the ledger and every TTL as they were.
pub proof fn snapshot_agrees_with_a_reading(
    worlds: Seq<World>,
    snapshot_worlds: Seq<World>,
    contract: Address,
    kind: StorageKind,
    key: Val,
    reading: Reading,
    taken: Reading,
    result: Result<TtlSnapshot, TestkitError>,
)
    requires
        history(worlds, reading.steps(contract, kind, key)),
        history(snapshot_worlds, taken.steps(contract, kind, key)),
        snapshot_worlds[0] == worlds[0],
        kind is Instance ==> !worlds[0].expired(place(contract, kind, key)),
        snapshot_tells(result, kind, taken),
    ensures
        snapshot_tells(result, kind, reading),
        result is Ok <==> reading.outcome(kind) is Ok,
        snapshot_worlds.last().same_ttls(worlds[0]),
{
    reading_tells_and_leaves_the_ttl(worlds, contract, kind, key, reading);
    reading_tells_and_leaves_the_ttl(snapshot_worlds, contract, kind, key, taken);
}

/// The two readings around a call tell the TTL that the call found and the TTL
/// that it left. An expired instance is left out: the host restores it.
pub proof fn readings_tell_what_the_call_found_and_left<F>(
    worlds: Seq<World>,
    contract: Address,
    kind: StorageKind,
    key: Val,
    f: F,
    before: Reading,
    after: Reading,
    found: World,
    left: World,
)
    requires
        history(worlds, around_steps(contract, kind, key, f, before, after)),
        before.outcome(kind) is Ok,
        found == worlds[before.steps(contract, kind, key).len() as int],
        left == worlds[before.steps(contract, kind, key).len() + 1int],
        kind is Instance ==> !worlds[0].expired(place(contract, kind, key)) && !left.expired(
            place(contract, kind, key),
        ),
    ensures
        found.ttl(place(contract, kind, key)) is Some,
        both(kind, before, after) == match left.ttl(place(contract, kind, key)) {
            Some(to) => Ok::<(u32, u32), TestkitError>(
                (found.ttl(place(contract, kind, key))->Some_0, to),
            ),
            None => Err(TestkitError::EntryUnavailable),
        },
        found.same_ttls(worlds[0]),
        worlds.last().same_ttls(left),
{
    let at = place(contract, kind, key);
    let first = before.steps(contract, kind, key);
    let last = after.steps(contract, kind, key);
    let n = first.len() as int;
    history_splits(worlds, first.push(run_step(f)), last);
    assert(first.push(run_step(f)) =~= first + seq![run_step(f)]);
    history_splits(worlds.take(n + 2), first, seq![run_step(f)]);
    let earlier = worlds.take(n + 2).take(n + 1);
    let later = worlds.skip(n + 1);
    reading_tells_and_leaves_the_ttl(earlier, contract, kind, key, before);
    reading_tells_and_leaves_the_ttl(later, contract, kind, key, after);
    assert(earlier.last() == found && earlier[0] == worlds[0]);
    assert(later.last() == worlds.last() && later[0] == left);
    assert(found.ttl(at) == worlds[0].ttl(at));
}

/// Where `expire` succeeds, the ledger is one past the most that any entry may
/// live for, so that no entry is alive, whatever its kind and however far it was
/// extended; no entry's life has changed.
pub proof fn expiry_leaves_no_entry_alive(
    worlds: Seq<World>,
    state: Option<LedgerState>,
    done: bool,
)
    requires
        history(worlds, expire_steps(state, done)),
        expire_result(state, done) is Ok,
        worlds[0].keeps_to_max_ttl(),
    ensures
        worlds.last().sequence == worlds[0].sequence + expiry_advance(worlds[0].max_entry_ttl),
        worlds.last().lives == worlds[0].lives,
        forall|at: Place| (#[trigger] worlds.last().ttl(at)) is None,
{
    let steps = expire_steps(state, done);
    assert(worlds[0].leads(steps[0], worlds[1]));
    assert(worlds[1].leads(steps[1], worlds[2]));
}

/// The call that is held to survive expiry finds a ledger in which no entry is
/// alive, and nothing is done behind it: the advance is not undone.
pub proof fn survivors_find_no_entry_alive<F>(
    worlds: Seq<World>,
    f: F,
    state: Option<LedgerState>,
    done: bool,
    found: World,
)
    requires
        history(worlds, survival_steps(f, state, done)),
        expire_result(state, done) is Ok,
        worlds[0].keeps_to_max_ttl(),
        found == worlds[worlds.len() - 2],
    ensures
        found.sequence == worlds[0].sequence + expiry_advance(worlds[0].max_entry_ttl),
        forall|at: Place| (#[trigger] found.ttl(at)) is None,
        survival_steps(f, state, done).last() == run_step(f),
{
    let steps = expire_steps(state, done);
    assert(steps.push(run_step(f)) =~= steps + seq![run_step(f)]);
    history_splits(worlds, steps, seq![run_step(f)]);
    expiry_leaves_no_entry_alive(worlds.take(steps.len() + 1int), state, done);
}

/// The call that is run before expiry finds the entry with exactly one ledger to
/// go, and nothing is done behind it. An expired instance is left out: the host
/// restores it.
pub proof fn last_runs_find_one_ledger_to_go<F>(
    worlds: Seq<World>,
    contract: Address,
    kind: StorageKind,
    key: Val,
    f: F,
    reading: Reading,
    found: World,
)
    requires
        history(worlds, last_run_steps(contract, kind, key, f, reading, true)),
        reading.outcome(kind) matches Ok(ttl) && ttl > 0,
        kind is Instance ==> !worlds[0].expired(place(contract, kind, key)),
        found == worlds[worlds.len() - 2],
    ensures
        found.ttl(place(contract, kind, key)) == Some(1u32),
        last_run_steps(contract, kind, key, f, reading, true).last() == run_step(f),
{
    let first = reading.steps(contract, kind, key);
    let moved = last_moment_steps(contract, kind, key, reading, true);
    let move_step = moved.last();
    assert(moved =~= first + seq![move_step]);
    assert(last_run_steps(contract, kind, key, f, reading, true) =~= first + seq![
        move_step,
        run_step(f),
    ]);
    history_splits(worlds, first, seq![move_step, run_step(f)]);
    let rest = worlds.skip(first.len() as int);
    assert(rest[0].leads(seq![move_step, run_step(f)][0], rest[1]));
    reading_tells_and_leaves_the_ttl(
        worlds.take(first.len() + 1int),
        contract,
        kind,
        key,
        reading,
    );
    assert(rest[0] == worlds.take(first.len() + 1int).last());
    assert(rest[0].ttl(place(contract, kind, key)) == worlds[0].ttl(place(contract, kind, key)));
    assert(rest[0].sequence == reading.state->Some_0.sequence) by {
        assert(worlds.take(first.len() + 1int)[first.len() - 1].leads(
            first[first.len() - 1],
            worlds.take(first.len() + 1int)[first.len() as int],
        ));
    }
    assert(found == rest[1]);
}

/// Where a last-moment run moves, the sequence number that it sets leaves the
/// entry alive with exactly one ledger to go, at the end of an advance by the
/// ledgers left less one, which never runs out of sequence numbers.
pub proof fn last_moment_is_one_ledger_short_of_expiry(
    contract: Address,
    kind: StorageKind,
    key: Val,
    reading: Reading,
    ttl: u32,
    done: bool,
)
    requires
        reading.outcome(kind) == Ok::<u32, TestkitError>(ttl),
        ttl > 0,
    ensures
        last_moment_steps(contract, kind, key, reading, done).last() matches Step::Sequence {
            sequence,
            done: set,
        } && set == done && ttl_at(reading.life(kind)->Some_0, sequence) == Some(1u32),
        reading.steps(contract, kind, key).drop_last() + advance_steps(
            (ttl - 1) as u32,
            reading.state,
            done,
        ) == last_moment_steps(contract, kind, key, reading, done),
        done ==> advance_result((ttl - 1) as u32, reading.state, done) is Ok,
{
    assert(reading.steps(contract, kind, key).drop_last() + advance_steps(
        (ttl - 1) as u32,
        reading.state,
        done,
    ) =~= last_moment_steps(contract, kind, key, reading, done));
}

/// Where an advance succeeds and nothing extends an entry, its TTL goes down by
/// the ledgers advanced, and the entry is gone once there are more of them than
/// its TTL.
pub proof fn ttl_decreases_as_ledgers_advance(
    state: LedgerState,
    live_until: u32,
    before: u32,
    ledgers: u32,
    done: bool,
)
    requires
        ttl_at(live_until, state.sequence) == Some(before),
        advance_result(ledgers, Some(state), done) is Ok,
    ensures
        advance_steps(ledgers, Some(state), done).last() matches Step::Sequence {
            sequence,
            done: set,
        } && set && ttl_at(live_until, sequence) == if ledgers <= before {
            Some((before - ledgers) as u32)
        } else {
            None::<u32>
        },
{
}

/// A call that only advances the ledger passes the delta assertion with the
/// negated number of ledgers and the assertion that nothing was extended, and
/// fails the assertion that something was.
pub proof fn advancing_yields_a_negative_delta(
    kind: StorageKind,
    state: LedgerState,
    live_until: u32,
    before: u32,
    after: u32,
    ledgers: u32,
    sequence: u32,
)
    requires
        ttl_at(live_until, state.sequence) == Some(before),
        state.sequence_after(ledgers) == Some(sequence),
        ttl_at(live_until, sequence) == Some(after),
    ensures
        change_failure(kind, (-ledgers) as i64, before, after) is None,
        no_bump_failure(kind, before, after) is None,
        bump_failure(kind, before, after) is Some,
{
}

/// A call that extends an entry's life by `extension` ledgers while `ledgers`
/// ledgers pass changes its TTL by the difference, and passes the assertion that
/// it extended the TTL exactly where the extension is the greater of the two.
pub proof fn extension_is_held_against_the_ledgers_that_pass(
    kind: StorageKind,
    state: LedgerState,
    live_until: u32,
    later_live_until: u32,
    before: u32,
    after: u32,
    extension: u32,
    ledgers: u32,
    sequence: u32,
)
    requires
        ttl_at(live_until, state.sequence) == Some(before),
        later_live_until == live_until + extension,
        state.sequence_after(ledgers) == Some(sequence),
        ttl_at(later_live_until, sequence) == Some(after),
    ensures
        change_failure(kind, (extension - ledgers) as i64, before, after) is None,
        bump_failure(kind, before, after) is None <==> extension > ledgers,
        no_bump_failure(kind, before, after) is None <==> extension <= ledgers,
{
}

/// The assertion that a call does not extend a TTL is the inverse of the
/// assertion that it does: on any readings exactly one of them holds.
pub proof fn no_bump_is_the_inverse_of_bump(kind: StorageKind, before: u32, after: u32)
    ensures
        bump_failure(kind, before, after) is None <==> no_bump_failure(kind, before, after) is Some,
{
}

/// The bulk assertion holds exactly where the single one holds for every entry.
pub proof fn bulk_bump_is_every_single_bump(kind: StorageKind, entries: Seq<LabelledTtl>)
    ensures
        bump_all_failure(kind, entries) is None <==> forall|i: int|
            #![trigger entries[i]]
            0 <= i < entries.len() ==> bump_failure(
                kind,
                entries[i].before,
                entries[i].after,
            ) is None,
{
    if forall|i: int|
        #![trigger entries[i]]
        0 <= i < entries.len() ==> bump_failure(kind, entries[i].before, entries[i].after) is None {
        assert forall|i: int| 0 <= i < entries.len() implies (
        #[trigger] entries[i]).bumped() by {
            assert(bump_failure(kind, entries[i].before, entries[i].after) is None);
        }
    }
}

/// The bulk report names every entry whose TTL was not extended, and no other.
pub proof fn bulk_report_names_exactly_the_stale_entries(entries: Seq<LabelledTtl>)
    ensures
        forall|i: int|
            0 <= i < entries.len() && !(#[trigger] entries[i]).bumped() ==> stale_lines(
                entries,
            ).contains(entries[i].line()),
        forall|j: int|
            0 <= j < stale_lines(entries).len() ==> exists|i: int|
                0 <= i < entries.len() && !(#[trigger] entries[i]).bumped() && entries[i].line()
                    == #[trigger] stale_lines(entries)[j],
        stale_lines(entries).len() == 0 <==> forall|i: int|
            0 <= i < entries.len() ==> (#[trigger] entries[i]).bumped(),
{
    let stale = |entry: LabelledTtl| !entry.bumped();
    let kept = entries.filter(stale);
    let lines = stale_lines(entries);
    assert(lines =~= kept.map_values(|entry: LabelledTtl| entry.line()));
    assert forall|i: int|
        0 <= i < entries.len() && !(#[trigger] entries[i]).bumped() implies lines.contains(
        entries[i].line(),
    ) by {
        entries.lemma_filter_contains(stale, i);
        let j = choose|j: int| 0 <= j < kept.len() && kept[j] == entries[i];
        assert(lines[j] == entries[i].line());
    }
    assert forall|j: int| 0 <= j < lines.len() implies exists|i: int|
        0 <= i < entries.len() && !(#[trigger] entries[i]).bumped() && entries[i].line()
            == #[trigger] lines[j] by {
        entries.lemma_filter_pred(stale, j);
        assert(kept.contains(kept[j]));
        entries.lemma_filter_contains_rev(stale, kept[j]);
        let i = choose|i: int| 0 <= i < entries.len() && entries[i] == kept[j];
        assert(!entries[i].bumped() && entries[i].line() == lines[j]);
    }
    if lines.len() != 0 {
        assert(lines[0] == lines[0]);
    }
}

/// A minimum that holds of a TTL is that TTL or less: the TTL itself is met,
/// anything above it is not, and anything below a minimum that is met is met.
pub proof fn at_least_is_met_up_to_the_ttl(kind: StorageKind, ttl: u32, min_ttl: u32, lower: u32)
    ensures
        at_least_failure(kind, ttl, ttl) is None,
        min_ttl > ttl ==> at_least_failure(kind, ttl, min_ttl) is Some,
        at_least_failure(kind, ttl, min_ttl) is None && lower <= min_ttl ==> at_least_failure(
            kind,
            ttl,
            lower,
        ) is None,
{
}

/// The delta assertion holds of one expected delta alone: the difference
/// between the snapshots of the same readings.
pub proof fn delta_is_the_snapshot_difference(
    kind: StorageKind,
    expected: i64,
    before: TtlSnapshot,
    after: TtlSnapshot,
)
    ensures
        change_failure(kind, expected, before.ttl_held(), after.ttl_held()) is None <==> expected
            == ttl_change(before.ttl_held(), after.ttl_held()),
{
}

/// A TTL was extended exactly where its change is positive.
pub proof fn bump_is_a_positive_change(kind: StorageKind, before: u32, after: u32)
    ensures
        bump_failure(kind, before, after) is None <==> ttl_change(before, after) > 0,
        no_bump_failure(kind, before, after) is None <==> ttl_change(before, after) <= 0,
{
}

/// Differences of snapshots: none to itself, the opposite in the other
/// direction, and additive over a snapshot in between.
pub proof fn snapshot_differences_add_up(a: TtlSnapshot, b: TtlSnapshot, c: TtlSnapshot)
    ensures
        ttl_change(a.ttl_held(), a.ttl_held()) == 0,
        ttl_change(b.ttl_held(), a.ttl_held()) == -ttl_change(a.ttl_held(), b.ttl_held()),
        ttl_change(a.ttl_held(), c.ttl_held()) == ttl_change(a.ttl_held(), b.ttl_held())
            + ttl_change(b.ttl_held(), c.ttl_held()),
{
}

/// A contract has one instance TTL: a reading of it does not depend on the key.
pub proof fn instance_ttl_ignores_the_key(
    contract: Address,
    key: Val,
    other: Val,
    reading: Reading,
)
    ensures
        reading.steps(contract, StorageKind::Instance, key) == reading.steps(
            contract,
            StorageKind::Instance,
            other,
        ),
{
}

/// Two readings of a life that nothing extended tell a change in TTL of the
/// ledgers that passed in between, negated; and an entry that tells a TTL in the
/// later one told one in the earlier.
pub proof fn readings_tell_the_ledgers_that_passed(
    kind: StorageKind,
    earlier: Reading,
    later: Reading,
    from: LedgerState,
    to: LedgerState,
)
    requires
        earlier.life(kind) == later.life(kind),
        earlier.state == Some(from),
        later.state == Some(to),
        from.sequence <= to.sequence,
        later.outcome(kind) is Ok,
    ensures
        both(kind, earlier, later) matches Ok((before, after)) && ttl_change(before, after)
            == from.sequence - to.sequence,
{
}

/// A reading that tells no TTL is never reported as a success or as a failed
/// assertion.
pub proof fn unread_entries_give_no_verdict(
    kind: StorageKind,
    before: Reading,
    after: Reading,
    error: TestkitError,
    failure: Option<Seq<char>>,
)
    requires
        before.outcome(kind) == Err::<u32, TestkitError>(error) || both(kind, before, after)
            == Err::<(u32, u32), TestkitError>(error),
    ensures
        !reports(Err(error), failure),
{
}

/// The same holds of the bulk assertion; and where it comes to a verdict, every
/// key was read twice.
pub proof fn unread_keys_give_no_verdict(
    kind: StorageKind,
    keys: Seq<(Val, &str)>,
    befores: Seq<Reading>,
    afters: Seq<Reading>,
    failure: Option<Seq<char>>,
)
    requires
        goes_through(keys.len(), kind, befores),
        goes_through(keys.len(), kind, afters),
    ensures
        last_error(kind, befores) matches Some(error) ==> !reports(Err(error), failure),
        last_error(kind, afters) matches Some(error) ==> !reports(Err(error), failure),
        last_error(kind, befores) is None && last_error(kind, afters) is None ==> forall|i: int|
            0 <= i < keys.len() ==> both(kind, befores[i], afters[i]) == Ok::<
                (u32, u32),
                TestkitError,
            >(
                (
                    (#[trigger] labelled(kind, keys, befores, afters)[i]).before,
                    labelled(kind, keys, befores, afters)[i].after,
                ),
            ),
{
    if last_error(kind, befores) is None && last_error(kind, afters) is None {
        assert forall|i: int| 0 <= i < keys.len() implies befores[i].outcome(kind) is Ok
            && afters[i].outcome(kind) is Ok by {}
    }
}

/// The message of a panic is forwarded at the end of the report, whether the
/// panic carried a string literal or an owned string; and a closure that
/// completed is never reported.
pub proof fn panic_messages_are_forwarded(kind: StorageKind, payload: PanicPayload)
    ensures
        survival_failure(kind, Ok(())) is None,
        last_moment_failure(kind, Ok(())) is None,
        survival_failure(kind, Err(payload)) matches Some(text) && payload.text().is_suffix_of(
            text,
        ),
        last_moment_failure(kind, Err(payload)) matches Some(text) && payload.text().is_suffix_of(
            text,
        ),
        payload matches PanicPayload::Literal(message) ==> payload.text() == message@,
        payload matches PanicPayload::Owned(message) ==> payload.text() == message@,
{
}

} // verus!
