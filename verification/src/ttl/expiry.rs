//! TTL readings of an environment's entries, and assertions on them.

use crate::env::{advance_result, advance_steps, TestEnv};
use crate::error::{reports, TestkitError};
use crate::sdk::{run_step, LedgerState, Step, UnderTest};
use crate::ttl::payload::PanicPayload;
use crate::ttl::reading::{goes_through, last_error, readings_steps, Reading};
use crate::ttl::snapshot::{StorageKind, TtlSnapshot};
use crate::ttl::verdict::{
    at_least_failure, bump_all_failure, bump_failure, change_failure, check_at_least, check_bump,
    check_bump_all, check_change, check_last_moment, check_no_bump, check_survival,
    expiry_advance, last_moment_failure, ledgers_until_expiry, ledgers_until_last_moment,
    no_bump_failure, survival_failure, too_late_failure, LabelledTtl,
};
use soroban_sdk::{Address, Val};
use vstd::prelude::*;

verus! {

/// The steps of reading an entry's TTL in `before`, running `f`, and reading the
/// TTL again in `after`. Where `before` tells no TTL, it is all there is.
pub open spec fn around_steps<F>(
    contract: Address,
    kind: StorageKind,
    key: Val,
    f: F,
    before: Reading,
    after: Reading,
) -> Seq<Step> {
    if before.outcome(kind) is Ok {
        before.steps(contract, kind, key).push(run_step(f)) + after.steps(contract, kind, key)
    } else {
        before.steps(contract, kind, key)
    }
}

/// The TTLs of two readings, or why the first that tells none tells none.
pub open spec fn both(kind: StorageKind, before: Reading, after: Reading) -> Result<
    (u32, u32),
    TestkitError,
> {
    match before.outcome(kind) {
        Err(error) => Err(error),
        Ok(from) => match after.outcome(kind) {
            Err(error) => Err(error),
            Ok(to) => Ok((from, to)),
        },
    }
}

/// The steps of reading the TTLs of the keys' entries in `befores`, running `f`,
/// and reading the TTLs again in `afters`. Where one of the entries tells no TTL
/// in `befores`, these are all there is.
pub open spec fn bulk_steps<F>(
    contract: Address,
    kind: StorageKind,
    keys: Seq<(Val, &str)>,
    f: F,
    befores: Seq<Reading>,
    afters: Seq<Reading>,
) -> Seq<Step> {
    if last_error(kind, befores) is None {
        readings_steps(contract, kind, keys, befores).push(run_step(f)) + readings_steps(
            contract,
            kind,
            keys,
            afters,
        )
    } else {
        readings_steps(contract, kind, keys, befores)
    }
}

/// The keys' labels with the TTLs that two rounds of readings tell.
pub open spec fn labelled<'a>(
    kind: StorageKind,
    keys: Seq<(Val, &'a str)>,
    befores: Seq<Reading>,
    afters: Seq<Reading>,
) -> Seq<LabelledTtl<'a>> {
    Seq::new(
        keys.len(),
        |i: int|
            LabelledTtl {
                label: keys[i].1,
                before: befores[i].outcome(kind)->Ok_0,
                after: afters[i].outcome(kind)->Ok_0,
            },
    )
}

/// How many ledgers are advanced past every entry's expiry where the ledger
/// information was read as `state`.
pub open spec fn expire_ledgers(state: Option<LedgerState>) -> u32 {
    match state {
        None => 0,
        Some(at) => expiry_advance(at.max_entry_ttl),
    }
}

/// The steps of advancing past every entry's expiry, where the ledger
/// information was read as `state` and setting the sequence number was `done`
/// or refused.
pub open spec fn expire_steps(state: Option<LedgerState>, done: bool) -> Seq<Step> {
    advance_steps(expire_ledgers(state), state, done)
}

/// How that ends.
pub open spec fn expire_result(state: Option<LedgerState>, done: bool) -> Result<
    (),
    TestkitError,
> {
    advance_result(expire_ledgers(state), state, done)
}

/// The steps of moving to the last moment before the expiry of an entry whose
/// TTL was read in `reading`: the sequence number is set to one short of the
/// last ledger that the entry lives in, which was `done` or refused.
pub open spec fn last_moment_steps(
    contract: Address,
    kind: StorageKind,
    key: Val,
    reading: Reading,
    done: bool,
) -> Seq<Step> {
    reading.steps(contract, kind, key).push(
        Step::Sequence { sequence: (reading.life(kind)->Some_0 - 1) as u32, done },
    )
}

/// The steps of advancing past every entry's expiry and then running `f`. Where
/// the advance fails, it is all there is.
pub open spec fn survival_steps<F>(f: F, state: Option<LedgerState>, done: bool) -> Seq<Step> {
    if expire_result(state, done) is Ok {
        expire_steps(state, done).push(run_step(f))
    } else {
        expire_steps(state, done)
    }
}

/// The steps of reading an entry's TTL, moving to the last moment before its
/// expiry, and then running `f`. Where there is no TTL or it is 0, the reading is
/// all there is; where the ledger cannot be moved, `f` is not run.
pub open spec fn last_run_steps<F>(
    contract: Address,
    kind: StorageKind,
    key: Val,
    f: F,
    reading: Reading,
    done: bool,
) -> Seq<Step> {
    if !(reading.outcome(kind) matches Ok(ttl) && ttl > 0) {
        reading.steps(contract, kind, key)
    } else if done {
        last_moment_steps(contract, kind, key, reading, done).push(run_step(f))
    } else {
        last_moment_steps(contract, kind, key, reading, done)
    }
}

/// Whether `result` is the snapshot of what `reading` tells.
pub open spec fn snapshot_tells(
    result: Result<TtlSnapshot, TestkitError>,
    kind: StorageKind,
    reading: Reading,
) -> bool {
    match reading.outcome(kind) {
        Err(error) => result == Err::<TtlSnapshot, TestkitError>(error),
        Ok(ttl) => result matches Ok(snapshot) && snapshot.kind_held() == kind
            && snapshot.ttl_held() == ttl,
    }
}

impl TestEnv {
    /// The current TTL of a storage entry, in ledgers.
    ///
    /// Ignores `key` for [`StorageKind::Instance`], which has one TTL per
    /// contract rather than one per key. Fails if there is no such entry, and,
    /// for the other two kinds, if it has expired. A host restores an expired
    /// instance when it is read, and an expired persistent entry that it has not
    /// yet taken over from the snapshot that it was made from.
    pub fn ttl_of(&mut self, contract: &Address, kind: StorageKind, key: &Val) -> (result: Result<
        u32,
        TestkitError,
    >)
        ensures
            final(self).handle() == old(self).handle(),
            exists|reading: Reading|
                {
                    &&& final(self).steps() == old(self).steps() + #[trigger] reading.steps(
                        *contract,
                        kind,
                        *key,
                    )
                    &&& result == reading.outcome(kind)
                },
    {
        let reading: Reading = self.ttl_of_val(contract, kind, key);
        reading.ttl(kind)
    }

    /// Advances the ledger far enough that every entry, regardless of `kind`,
    /// expires.
    ///
    /// `kind` documents intent at the call site, but does not change the amount
    /// advanced: an entry of any kind may have been extended up to the
    /// network's `max_entry_ttl`. So this reads `max_entry_ttl` from the
    /// environment and advances one ledger past it.
    pub fn expire(&mut self, kind: StorageKind) -> (result: Result<(), TestkitError>)
        ensures
            final(self).handle() == old(self).handle(),
            exists|state: Option<LedgerState>, done: bool|
                {
                    &&& final(self).steps() == old(self).steps() + #[trigger] expire_steps(
                        state,
                        done,
                    )
                    &&& result == expire_result(state, done)
                },
    {
        let _ = kind;
        let ghost start = self.steps();
        let state: Option<LedgerState> = self.ledger();
        let ledgers: u32 = match state {
            Some(at) => ledgers_until_expiry(at.max_entry_ttl),
            None => 0,
        };
        assert(self.steps().drop_last() =~= start);
        let result = self.advance_from(state, ledgers);
        proof {
            let done = choose|done: bool|
                {
                    &&& self.steps() == start + #[trigger] advance_steps(ledgers, state, done)
                    &&& result == advance_result(ledgers, state, done)
                };
            assert(self.steps() == start + expire_steps(state, done));
        }
        result
    }

    /// Asserts that running `f` extends the TTL of the entry at
    /// `contract`/`kind`/`key` beyond what it was before `f` ran. `f` is run
    /// only where that TTL could be read.
    pub fn assert_bumps_ttl<F: FnOnce()>(
        &mut self,
        contract: &Address,
        kind: StorageKind,
        key: &Val,
        f: UnderTest<F>,
    ) -> (result: Result<(), TestkitError>)
        requires
            f.code().requires(()),
        ensures
            final(self).handle() == old(self).handle(),
            exists|before: Reading, after: Reading|
                {
                    &&& final(self).steps() == old(self).steps() + #[trigger] around_steps(
                        *contract,
                        kind,
                        *key,
                        f.code(),
                        before,
                        after,
                    )
                    &&& before.outcome(kind) is Ok ==> f.code().ensures((), ())
                    &&& match both(kind, before, after) {
                        Err(error) => result == Err::<(), TestkitError>(error),
                        Ok((from, to)) => reports(result, bump_failure(kind, from, to)),
                    }
                },
    {
        match self.measure(contract, kind, key, f) {
            Ok((from, to)) => check_bump(kind, from, to),
            Err(error) => Err(error),
        }
    }

    /// Asserts that running `f` extends the TTL of every entry listed in `keys`.
    ///
    /// Each key comes with a label, so that the failure message can name the
    /// keys whose TTL was not extended. `f` is run only where all the TTLs could
    /// be read.
    pub fn assert_bumps_ttl_multi<F: FnOnce()>(
        &mut self,
        contract: &Address,
        kind: StorageKind,
        keys: &[(Val, &str)],
        f: UnderTest<F>,
    ) -> (result: Result<(), TestkitError>)
        requires
            f.code().requires(()),
        ensures
            final(self).handle() == old(self).handle(),
            exists|befores: Seq<Reading>, afters: Seq<Reading>|
                {
                    &&& goes_through(keys@.len(), kind, befores)
                    &&& final(self).steps() == old(self).steps() + #[trigger] bulk_steps(
                        *contract,
                        kind,
                        keys@,
                        f.code(),
                        befores,
                        afters,
                    )
                    &&& match last_error(kind, befores) {
                        Some(error) => result == Err::<(), TestkitError>(error),
                        None => {
                            &&& f.code().ensures((), ())
                            &&& goes_through(keys@.len(), kind, afters)
                            &&& match last_error(kind, afters) {
                                Some(error) => result == Err::<(), TestkitError>(error),
                                None => reports(
                                    result,
                                    bump_all_failure(kind, labelled(kind, keys@, befores, afters)),
                                ),
                            }
                        },
                    }
                },
    {
        let ghost start = self.steps();
        let befores: Vec<Reading> = self.ttls_of_vals(contract, kind, keys);
        match unread(kind, &befores) {
            Some(error) => {
                assert(self.steps() == start + bulk_steps(
                    *contract,
                    kind,
                    keys@,
                    f.code(),
                    befores@,
                    Seq::empty(),
                ));
                return Err(error);
            },
            None => {},
        }
        self.run(f);
        let afters: Vec<Reading> = self.ttls_of_vals(contract, kind, keys);
        assert(self.steps() =~= start + bulk_steps(
            *contract,
            kind,
            keys@,
            f.code(),
            befores@,
            afters@,
        ));
        match unread(kind, &afters) {
            Some(error) => return Err(error),
            None => {},
        }
        let mut entries: Vec<LabelledTtl> = Vec::new();
        let ghost expected = labelled(kind, keys@, befores@, afters@);
        let mut i: usize = 0;
        while i < keys.len()
            invariant
                i <= keys@.len(),
                goes_through(keys@.len(), kind, befores@),
                goes_through(keys@.len(), kind, afters@),
                last_error(kind, befores@) is None,
                last_error(kind, afters@) is None,
                expected == labelled(kind, keys@, befores@, afters@),
                entries@ == expected.take(i as int),
            decreases keys@.len() - i,
        {
            assert(befores@[i as int].outcome(kind) is Ok);
            assert(afters@[i as int].outcome(kind) is Ok);
            if let (Ok(before), Ok(after)) = (befores[i].ttl(kind), afters[i].ttl(kind)) {
                entries.push(LabelledTtl { label: keys[i].1, before, after });
            }
            assert(entries@ =~= expected.take(i + 1));
            i += 1;
        }
        assert(entries@ =~= expected);
        check_bump_all(kind, &entries)
    }

    /// Asserts that `f` completes without panicking after every entry of `kind`
    /// has expired, that is, that the contract handles an expired or missing
    /// entry gracefully instead of trapping on it. `f` returns the payload of
    /// the panic where there was one, and is run only once the ledger has been
    /// advanced, which is not undone.
    pub fn assert_survives_expiry<F: FnOnce() -> Result<(), PanicPayload>>(
        &mut self,
        kind: StorageKind,
        f: UnderTest<F>,
    ) -> (result: Result<(), TestkitError>)
        requires
            f.code().requires(()),
        ensures
            final(self).handle() == old(self).handle(),
            exists|state: Option<LedgerState>, done: bool|
                {
                    &&& final(self).steps() == old(self).steps() + #[trigger] survival_steps(
                        f.code(),
                        state,
                        done,
                    )
                    &&& match expire_result(state, done) {
                        Err(error) => result == Err::<(), TestkitError>(error),
                        Ok(_) => exists|run: Result<(), PanicPayload>|
                            {
                                &&& #[trigger] f.code().ensures((), run)
                                &&& reports(result, survival_failure(kind, run))
                            },
                    }
                },
    {
        let ghost start = self.steps();
        let expired = self.expire(kind);
        let ghost (state, done) = choose|state: Option<LedgerState>, done: bool|
            {
                &&& self.steps() == start + #[trigger] expire_steps(state, done)
                &&& expired == expire_result(state, done)
            };
        match expired {
            Ok(_) => {},
            Err(error) => {
                assert(self.steps() == start + survival_steps(f.code(), state, done));
                return Err(error);
            },
        }
        let run: Result<(), PanicPayload> = self.run(f);
        assert(self.steps() =~= start + survival_steps(f.code(), state, done));
        check_survival(kind, &run)
    }

    /// Asserts that running `f` does not extend the TTL of the entry at
    /// `contract`/`kind`/`key`: the inverse of [`TestEnv::assert_bumps_ttl`].
    /// `f` is run only where that TTL could be read.
    pub fn assert_no_ttl_bump<F: FnOnce()>(
        &mut self,
        contract: &Address,
        kind: StorageKind,
        key: &Val,
        f: UnderTest<F>,
    ) -> (result: Result<(), TestkitError>)
        requires
            f.code().requires(()),
        ensures
            final(self).handle() == old(self).handle(),
            exists|before: Reading, after: Reading|
                {
                    &&& final(self).steps() == old(self).steps() + #[trigger] around_steps(
                        *contract,
                        kind,
                        *key,
                        f.code(),
                        before,
                        after,
                    )
                    &&& before.outcome(kind) is Ok ==> f.code().ensures((), ())
                    &&& match both(kind, before, after) {
                        Err(error) => result == Err::<(), TestkitError>(error),
                        Ok((from, to)) => reports(result, no_bump_failure(kind, from, to)),
                    }
                },
    {
        match self.measure(contract, kind, key, f) {
            Ok((from, to)) => check_no_bump(kind, from, to),
            Err(error) => Err(error),
        }
    }

    /// Advances the ledger to one ledger before the entry at
    /// `contract`/`kind`/`key` expires, then runs `f`, and asserts that `f`
    /// completes without panicking. `f` returns the payload of the panic where
    /// there was one, and is run only once the ledger has been advanced.
    pub fn assert_runs_before_expiry<F: FnOnce() -> Result<(), PanicPayload>>(
        &mut self,
        contract: &Address,
        kind: StorageKind,
        key: &Val,
        f: UnderTest<F>,
    ) -> (result: Result<(), TestkitError>)
        requires
            f.code().requires(()),
        ensures
            final(self).handle() == old(self).handle(),
            exists|reading: Reading, done: bool|
                {
                    &&& final(self).steps() == old(self).steps() + #[trigger] last_run_steps(
                        *contract,
                        kind,
                        *key,
                        f.code(),
                        reading,
                        done,
                    )
                    &&& match reading.outcome(kind) {
                        Err(error) => result == Err::<(), TestkitError>(error),
                        Ok(ttl) => if ttl == 0 {
                            reports(result, Some(too_late_failure(kind)))
                        } else if done {
                            exists|run: Result<(), PanicPayload>|
                                {
                                    &&& #[trigger] f.code().ensures((), run)
                                    &&& reports(result, last_moment_failure(kind, run))
                                }
                        } else {
                            result == Err::<(), TestkitError>(TestkitError::LedgerUnavailable)
                        },
                    }
                },
    {
        let ghost start = self.steps();
        let ghost code = f.code();
        let reading: Reading = self.ttl_of_val(contract, kind, key);
        let ghost first = reading.steps(*contract, kind, *key);
        let ghost all = |done: bool| last_run_steps(*contract, kind, *key, code, reading, done);
        let ttl: u32 = match reading.ttl(kind) {
            Ok(ttl) => ttl,
            Err(error) => {
                assert(self.steps() == start + all(false));
                return Err(error);
            },
        };
        let ledgers: u32 = match ledgers_until_last_moment(kind, ttl) {
            Ok(ledgers) => ledgers,
            Err(error) => {
                assert(self.steps() == start + all(false));
                return Err(error);
            },
        };
        assert(self.steps().drop_last() =~= start + first.drop_last());
        let moved = self.advance_from(reading.state, ledgers);
        let ghost done = choose|done: bool|
            {
                &&& self.steps() == start + first.drop_last() + #[trigger] advance_steps(
                    ledgers,
                    reading.state,
                    done,
                )
                &&& moved == advance_result(ledgers, reading.state, done)
            };
        assert(self.steps() =~= start + last_moment_steps(*contract, kind, *key, reading, done));
        match moved {
            Ok(_) => {},
            Err(error) => {
                assert(self.steps() == start + all(done));
                return Err(error);
            },
        }
        let run: Result<(), PanicPayload> = self.run(f);
        assert(self.steps() =~= start + all(done));
        check_last_moment(kind, &run)
    }

    /// Asserts that the entry at `contract`/`kind`/`key` has a TTL of at least
    /// `min_ttl` ledgers right now.
    pub fn assert_ttl_at_least(
        &mut self,
        contract: &Address,
        kind: StorageKind,
        key: &Val,
        min_ttl: u32,
    ) -> (result: Result<(), TestkitError>)
        ensures
            final(self).handle() == old(self).handle(),
            exists|reading: Reading|
                {
                    &&& final(self).steps() == old(self).steps() + #[trigger] reading.steps(
                        *contract,
                        kind,
                        *key,
                    )
                    &&& match reading.outcome(kind) {
                        Err(error) => result == Err::<(), TestkitError>(error),
                        Ok(ttl) => reports(result, at_least_failure(kind, ttl, min_ttl)),
                    }
                },
    {
        match self.ttl_of(contract, kind, key) {
            Ok(ttl) => check_at_least(kind, ttl, min_ttl),
            Err(error) => Err(error),
        }
    }

    /// Asserts that running `f` changes the TTL of the entry at
    /// `contract`/`kind`/`key` by exactly `expected_delta` ledgers (after minus
    /// before).
    ///
    /// The delta is signed: a bump is positive, and a closure that only
    /// advances the ledger yields a negative delta. `f` is run only where the
    /// TTL could be read.
    pub fn assert_ttl_delta<F: FnOnce()>(
        &mut self,
        contract: &Address,
        kind: StorageKind,
        key: &Val,
        expected_delta: i64,
        f: UnderTest<F>,
    ) -> (result: Result<(), TestkitError>)
        requires
            f.code().requires(()),
        ensures
            final(self).handle() == old(self).handle(),
            exists|before: Reading, after: Reading|
                {
                    &&& final(self).steps() == old(self).steps() + #[trigger] around_steps(
                        *contract,
                        kind,
                        *key,
                        f.code(),
                        before,
                        after,
                    )
                    &&& before.outcome(kind) is Ok ==> f.code().ensures((), ())
                    &&& match both(kind, before, after) {
                        Err(error) => result == Err::<(), TestkitError>(error),
                        Ok((from, to)) => reports(result, change_failure(kind, expected_delta, from, to)),
                    }
                },
    {
        match self.measure(contract, kind, key, f) {
            Ok((from, to)) => check_change(kind, expected_delta, from, to),
            Err(error) => Err(error),
        }
    }

    /// Captures the current TTL of the entry at `contract`/`kind`/`key`, to
    /// compare against a later one with [`TtlSnapshot::diff`].
    pub fn ttl_snapshot(&mut self, contract: &Address, kind: StorageKind, key: &Val) -> (result:
        Result<TtlSnapshot, TestkitError>)
        ensures
            final(self).handle() == old(self).handle(),
            exists|reading: Reading|
                {
                    &&& final(self).steps() == old(self).steps() + #[trigger] reading.steps(
                        *contract,
                        kind,
                        *key,
                    )
                    &&& snapshot_tells(result, kind, reading)
                },
    {
        match self.ttl_of(contract, kind, key) {
            Ok(ttl) => Ok(TtlSnapshot::taken(kind, ttl)),
            Err(error) => Err(error),
        }
    }

    /// Reads a TTL before and after running `f`.
    fn measure<F: FnOnce()>(
        &mut self,
        contract: &Address,
        kind: StorageKind,
        key: &Val,
        f: UnderTest<F>,
    ) -> (result: Result<(u32, u32), TestkitError>)
        requires
            f.code().requires(()),
        ensures
            final(self).handle() == old(self).handle(),
            exists|before: Reading, after: Reading|
                {
                    &&& final(self).steps() == old(self).steps() + #[trigger] around_steps(
                        *contract,
                        kind,
                        *key,
                        f.code(),
                        before,
                        after,
                    )
                    &&& before.outcome(kind) is Ok ==> f.code().ensures((), ())
                    &&& result == both(kind, before, after)
                },
    {
        let ghost start = self.steps();
        let before: Reading = self.ttl_of_val(contract, kind, key);
        let from: u32 = match before.ttl(kind) {
            Ok(ttl) => ttl,
            Err(error) => {
                assert(self.steps() == start + around_steps(
                    *contract,
                    kind,
                    *key,
                    f.code(),
                    before,
                    before,
                ));
                return Err(error);
            },
        };
        self.run(f);
        let after: Reading = self.ttl_of_val(contract, kind, key);
        assert(self.steps() =~= start + around_steps(
            *contract,
            kind,
            *key,
            f.code(),
            before,
            after,
        ));
        match after.ttl(kind) {
            Ok(to) => Ok((from, to)),
            Err(error) => Err(error),
        }
    }
}

/// Why the last of the readings tells no TTL, if it tells none.
fn unread(kind: StorageKind, readings: &Vec<Reading>) -> (error: Option<TestkitError>)
    ensures
        error == last_error(kind, readings@),
{
    if readings.len() == 0 {
        return None;
    }
    match readings[readings.len() - 1].ttl(kind) {
        Ok(_) => None,
        Err(error) => Some(error),
    }
}

} // verus!
