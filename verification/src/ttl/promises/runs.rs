//! What the operations promise that run a call in a later ledger:
//! `assert_survives_expiry` and `assert_runs_before_expiry`.

use crate::error::TestkitError;
use crate::sdk::{run_step, LedgerState, Step, TestEnv, UnderTest};
use crate::ttl::expiry::last_run_steps;
use crate::ttl::laws::reading_tells_and_leaves_the_ttl;
use crate::ttl::payload::PanicPayload;
use crate::ttl::promises::ledger::past_every_life;
use crate::ttl::promises::{reading_leaves_what_is_alive, reading_reads, since_is_what_was_added};
use crate::ttl::reading::Reading;
use crate::ttl::record::{continues, only_reads, reads, says, since, told};
use crate::ttl::snapshot::StorageKind;
use crate::ttl::world::{history, history_splits, place, Place, World};
use soroban_sdk::{Address, Val};
use vstd::prelude::*;

verus! {

/// Whether the steps end with the run of `f`, and there is no other run.
pub open spec fn ends_with_run<F>(steps: Seq<Step>, f: F) -> bool {
    &&& steps.len() > 0
    &&& steps.last() == run_step(f)
    &&& forall|i: int| 0 <= i < steps.len() - 1 ==> !((#[trigger] steps[i]) is Run)
}

/// `assert_survives_expiry` does what `expire` does and, where that succeeds, runs
/// the call behind it, and does nothing else. Where the advance fails, it fails
/// in the same way and the call is not run; otherwise it holds exactly where the
/// call did not panic, and forwards the message where it did.
pub proof fn survival_judges_the_run_behind_the_advance<
    F: FnOnce() -> Result<(), PanicPayload>,
>(env: &mut TestEnv, kind: StorageKind, f: UnderTest<F>, result: Result<(), TestkitError>)
    requires
        call_ensures(TestEnv::assert_survives_expiry::<F>, (env, kind, f), result),
    ensures
        continues(*old(env), *final(env)),
        ({
            let steps = since(*old(env), *final(env));
            &&& 1 <= steps.len() <= 3
            &&& steps[0] matches Step::Ledger { state } && match state {
                None => steps.len() == 1 && result == Err::<(), TestkitError>(
                    TestkitError::LedgerUnavailable,
                ),
                Some(now) => if now.sequence + past_every_life(now.max_entry_ttl) > u32::MAX {
                    steps.len() == 1 && result == Err::<(), TestkitError>(
                        TestkitError::SequenceOverflow,
                    )
                } else {
                    steps.len() >= 2 && (steps[1] matches Step::Sequence { sequence, done }
                        && sequence == now.sequence + past_every_life(now.max_entry_ttl) && if done {
                        &&& steps.len() == 3
                        &&& steps[2] == run_step(f.code())
                        &&& exists|run: Result<(), PanicPayload>|
                            {
                                &&& #[trigger] f.code().ensures((), run)
                                &&& result is Ok <==> run is Ok
                                &&& run matches Err(payload) ==> says(
                                    result,
                                    "expected the contract to survive "@ + kind.label()
                                        + " storage expiry gracefully, but it panicked: "@
                                        + payload.text(),
                                )
                            }
                    } else {
                        steps.len() == 2 && result == Err::<(), TestkitError>(
                            TestkitError::LedgerUnavailable,
                        )
                    })
                },
            }
        }),
{
    let pre = *old(env);
    let post = *final(env);
    let steps = choose|steps: Seq<Step>| post.steps() == #[trigger] (pre.steps() + steps);
    since_is_what_was_added(pre, post, steps);
}

/// On a host whose entries keep to the most that they may live for, the call that
/// `assert_survives_expiry` runs finds no entry alive, at one ledger past that
/// most and with every life unchanged, and nothing is done behind it: the advance
/// is not undone. The call is run wherever there is such a ledger, unless the
/// host refuses to go to it.
pub proof fn survivors_are_run_past_every_life<F: FnOnce() -> Result<(), PanicPayload>>(
    env: &mut TestEnv,
    kind: StorageKind,
    f: UnderTest<F>,
    result: Result<(), TestkitError>,
    worlds: Seq<World>,
)
    requires
        call_ensures(TestEnv::assert_survives_expiry::<F>, (env, kind, f), result),
        history(worlds, since(*old(env), *final(env))),
        worlds[0].sequence + worlds[0].max_entry_ttl + 1 <= u32::MAX,
    ensures
        ({
            let steps = since(*old(env), *final(env));
            let goal = (worlds[0].sequence + worlds[0].max_entry_ttl + 1) as u32;
            ||| {
                &&& result == Err::<(), TestkitError>(TestkitError::LedgerUnavailable)
                &&& steps.last() == (Step::Sequence { sequence: goal, done: false })
                &&& worlds.last() == worlds[0]
            }
            ||| {
                let met = worlds[worlds.len() - 2];
                &&& ends_with_run(steps, f.code())
                &&& met.sequence == goal
                &&& met.lives == worlds[0].lives
                &&& worlds[0].keeps_to_max_ttl() ==> forall|at: Place|
                    (#[trigger] met.ttl(at)) is None
                &&& exists|run: Result<(), PanicPayload>|
                    {
                        &&& #[trigger] f.code().ensures((), run)
                        &&& result is Ok <==> run is Ok
                        &&& result matches Err(error) ==> error is AssertionFailed
                    }
            }
        }),
{
    survival_judges_the_run_behind_the_advance(env, kind, f, result);
    let steps = since(*old(env), *final(env));
    assert(worlds[0].leads(steps[0], worlds[1]));
    if steps.len() > 1 {
        assert(worlds[1].leads(steps[1], worlds[2]));
    }
    if steps.len() > 2 {
        assert(steps[2] == run_step(f.code()));
    }
}

/// Whether the first `n` steps read a TTL of `ttl`, above 0, at the ledger `now`,
/// and the next sets the sequence number so many ledgers on that one is left.
pub open spec fn moves_to_last_moment(
    steps: Seq<Step>,
    kind: StorageKind,
    at: Place,
    n: int,
    ttl: u32,
    now: LedgerState,
    done: bool,
) -> bool {
    &&& 0 < n < steps.len()
    &&& reads(steps.take(n), kind, at)
    &&& told(steps.take(n)) == Ok::<u32, TestkitError>(ttl)
    &&& ttl > 0
    &&& steps[n - 1] == (Step::Ledger { state: Some(now) })
    &&& steps[n] == (Step::Sequence { sequence: (now.sequence + ttl - 1) as u32, done })
    &&& now.sequence + ttl - 1 <= u32::MAX
}

/// `assert_runs_before_expiry` reads the entry's TTL. Where it tells none, it
/// fails as the reading does; where the TTL is 0, it says so; and in both cases it
/// does nothing else. Otherwise it sets the sequence number to one short of the
/// last ledger that the entry lives in, and fails for want of the ledger
/// information exactly where the host refused that; where it did not, it runs the
/// call and does nothing behind it, and holds exactly where the call did not
/// panic, and forwards the message where it did.
#[verifier::spinoff_prover]
#[verifier::rlimit(40)]
pub proof fn last_run_judges_the_run_behind_the_advance<
    F: FnOnce() -> Result<(), PanicPayload>,
>(
    env: &mut TestEnv,
    contract: &Address,
    kind: StorageKind,
    key: &Val,
    f: UnderTest<F>,
    result: Result<(), TestkitError>,
)
    requires
        call_ensures(
            TestEnv::assert_runs_before_expiry::<F>,
            (env, contract, kind, key, f),
            result,
        ),
    ensures
        continues(*old(env), *final(env)),
        ({
            let steps = since(*old(env), *final(env));
            let at = place(*contract, kind, *key);
            ||| {
                &&& reads(steps, kind, at)
                &&& told(steps) matches Err(error) && result == Err::<(), TestkitError>(error)
            }
            ||| {
                &&& reads(steps, kind, at)
                &&& told(steps) == Ok::<u32, TestkitError>(0)
                &&& says(
                    result,
                    "cannot run before expiry: "@ + kind.label()
                        + " entry has already expired (TTL is 0)"@,
                )
            }
            ||| exists|n: int, ttl: u32, now: LedgerState, done: bool|
                {
                    &&& #[trigger] moves_to_last_moment(steps, kind, at, n, ttl, now, done)
                    &&& if done {
                        &&& steps.len() == n + 2
                        &&& steps[n + 1] == run_step(f.code())
                        &&& exists|run: Result<(), PanicPayload>|
                            {
                                &&& #[trigger] f.code().ensures((), run)
                                &&& result is Ok <==> run is Ok
                                &&& run matches Err(payload) ==> says(
                                    result,
                                    "closure panicked when run just before "@ + kind.label()
                                        + " expiry: "@ + payload.text(),
                                )
                            }
                    } else {
                        &&& steps.len() == n + 1
                        &&& result == Err::<(), TestkitError>(TestkitError::LedgerUnavailable)
                    }
                }
        }),
{
    let pre = *old(env);
    let post = *final(env);
    let at = place(*contract, kind, *key);
    let (reading, done) = choose|reading: Reading, done: bool|
        {
            &&& post.steps() == pre.steps() + #[trigger] last_run_steps(
                *contract,
                kind,
                *key,
                f.code(),
                reading,
                done,
            )
            &&& match reading.outcome(kind) {
                Err(error) => result == Err::<(), TestkitError>(error),
                Ok(ttl) => if ttl == 0 {
                    says(
                        result,
                        "cannot run before expiry: "@ + kind.label()
                            + " entry has already expired (TTL is 0)"@,
                    )
                } else if done {
                    exists|run: Result<(), PanicPayload>|
                        {
                            &&& #[trigger] f.code().ensures((), run)
                            &&& result is Ok <==> run is Ok
                            &&& run matches Err(payload) ==> says(
                                result,
                                "closure panicked when run just before "@ + kind.label()
                                    + " expiry: "@ + payload.text(),
                            )
                        }
                } else {
                    result == Err::<(), TestkitError>(TestkitError::LedgerUnavailable)
                },
            }
        };
    let steps = last_run_steps(*contract, kind, *key, f.code(), reading, done);
    since_is_what_was_added(pre, post, steps);
    reading_reads(*contract, kind, *key, reading);
    let first = reading.steps(*contract, kind, *key);
    if reading.outcome(kind) matches Ok(ttl) && ttl > 0 {
        let ttl = reading.outcome(kind)->Ok_0;
        let n = first.len() as int;
        assert(steps.take(n) =~= first);
        assert(moves_to_last_moment(steps, kind, at, n, ttl, reading.state->Some_0, done));
    }
}

/// On a host, where the entry is alive with a TTL above 0,
/// `assert_runs_before_expiry` runs the call in a ledger in which the entry has
/// exactly one ledger to go, with every life unchanged, and does nothing behind
/// it, unless the host refuses to go to that very ledger. Where the TTL is 0 or
/// the entry is not alive, the ledger and every TTL are left as they were and the
/// call is not run. An expired instance is left out: the host restores it.
#[verifier::spinoff_prover]
#[verifier::rlimit(40)]
pub proof fn last_runs_are_run_one_ledger_before_expiry<
    F: FnOnce() -> Result<(), PanicPayload>,
>(
    env: &mut TestEnv,
    contract: &Address,
    kind: StorageKind,
    key: &Val,
    f: UnderTest<F>,
    result: Result<(), TestkitError>,
    worlds: Seq<World>,
)
    requires
        call_ensures(
            TestEnv::assert_runs_before_expiry::<F>,
            (env, contract, kind, key, f),
            result,
        ),
        history(worlds, since(*old(env), *final(env))),
        kind is Instance ==> !worlds[0].expired(place(*contract, kind, *key)),
    ensures
        ({
            let steps = since(*old(env), *final(env));
            let at = place(*contract, kind, *key);
            match worlds[0].ttl(at) {
                None => {
                    &&& result == Err::<(), TestkitError>(TestkitError::EntryUnavailable)
                    &&& only_reads(steps)
                    &&& worlds.last().same_ttls(worlds[0])
                },
                Some(ttl) => if ttl == 0 {
                    &&& result matches Err(error) && error is AssertionFailed
                    &&& only_reads(steps)
                    &&& worlds.last().same_ttls(worlds[0])
                } else {
                    ||| {
                        &&& result == Err::<(), TestkitError>(TestkitError::LedgerUnavailable)
                        &&& steps.last() == (Step::Sequence {
                            sequence: (worlds[0].lives[at] - 1) as u32,
                            done: false,
                        })
                        &&& worlds.last().same_ttls(worlds[0])
                    }
                    ||| {
                        let met = worlds[worlds.len() - 2];
                        &&& ends_with_run(steps, f.code())
                        &&& met.sequence == worlds[0].lives[at] - 1
                        &&& met.ttl(at) == Some(1u32)
                        &&& met.lives == worlds[0].lives
                        &&& exists|run: Result<(), PanicPayload>|
                            {
                                &&& #[trigger] f.code().ensures((), run)
                                &&& result is Ok <==> run is Ok
                                &&& result matches Err(error) ==> error is AssertionFailed
                            }
                    }
                },
            }
        }),
{
    let pre = *old(env);
    let post = *final(env);
    let at = place(*contract, kind, *key);
    let (reading, done) = choose|reading: Reading, done: bool|
        {
            &&& post.steps() == pre.steps() + #[trigger] last_run_steps(
                *contract,
                kind,
                *key,
                f.code(),
                reading,
                done,
            )
            &&& match reading.outcome(kind) {
                Err(error) => result == Err::<(), TestkitError>(error),
                Ok(ttl) => if ttl == 0 {
                    result matches Err(error) && error is AssertionFailed
                } else if done {
                    exists|run: Result<(), PanicPayload>|
                        {
                            &&& #[trigger] f.code().ensures((), run)
                            &&& result is Ok <==> run is Ok
                            &&& result matches Err(error) ==> error is AssertionFailed
                        }
                } else {
                    result == Err::<(), TestkitError>(TestkitError::LedgerUnavailable)
                },
            }
        };
    let steps = last_run_steps(*contract, kind, *key, f.code(), reading, done);
    since_is_what_was_added(pre, post, steps);
    reading_reads(*contract, kind, *key, reading);
    let first = reading.steps(*contract, kind, *key);
    let n = first.len() as int;
    let rest = steps.skip(n);
    assert(steps =~= first + rest);
    history_splits(worlds, first, rest);
    let earlier = worlds.take(n + 1);
    reading_tells_and_leaves_the_ttl(earlier, *contract, kind, *key, reading);
    assert(earlier.last() == worlds[n] && earlier[0] == worlds[0]);
    assert(worlds[n].ttl(at) == worlds[0].ttl(at));
    reading_leaves_what_is_alive(earlier, *contract, kind, *key, reading);
    if rest.len() > 0 {
        assert(worlds[n].leads(steps[n], worlds[n + 1]));
        assert(worlds[n - 1].leads(steps[n - 1], worlds[n]));
    } else {
        assert(steps =~= first);
    }
}

} // verus!
