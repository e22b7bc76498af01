//! What the operations promise that measure a call by the TTL before and after
//! it: `assert_bumps_ttl`, `assert_no_ttl_bump` and `assert_ttl_delta`.

use crate::error::TestkitError;
use crate::sdk::{run_step, Step, TestEnv, UnderTest};
use crate::text::{integer_text, natural_text};
use crate::ttl::expiry::around_steps;
use crate::ttl::laws::reading_tells_and_leaves_the_ttl;
use crate::ttl::promises::{reading_reads, since_is_what_was_added};
use crate::ttl::reading::Reading;
use crate::ttl::record::{continues, only_reads, reads, says, since, told};
use crate::ttl::snapshot::StorageKind;
use crate::ttl::world::{history, history_splits, place, Place, World};
use soroban_sdk::{Address, Val};
use vstd::prelude::*;

verus! {

/// Whether the steps read an entry's TTL, run `f`, and read the TTL again, with
/// the run at `run`; the readings tell `from` and, behind it, `to`.
pub open spec fn reads_around<F>(
    steps: Seq<Step>,
    kind: StorageKind,
    at: Place,
    f: F,
    run: int,
    from: u32,
    to: Result<u32, TestkitError>,
) -> bool {
    &&& 0 <= run < steps.len()
    &&& reads(steps.take(run), kind, at)
    &&& told(steps.take(run)) == Ok::<u32, TestkitError>(from)
    &&& steps[run] == run_step(f)
    &&& reads(steps.skip(run + 1), kind, at)
    &&& told(steps.skip(run + 1)) == to
}

/// What the readings around a call come to, whatever is then made of them: either
/// the first of them tells no TTL, and there is no run and no second one, or the
/// call was run between the two.
proof fn around_reads<F>(
    contract: Address,
    kind: StorageKind,
    key: Val,
    f: F,
    before: Reading,
    after: Reading,
)
    ensures
        ({
            let steps = around_steps(contract, kind, key, f, before, after);
            let at = place(contract, kind, key);
            match before.outcome(kind) {
                Err(error) => reads(steps, kind, at) && told(steps) == Err::<u32, TestkitError>(
                    error,
                ),
                Ok(from) => reads_around(
                    steps,
                    kind,
                    at,
                    f,
                    before.steps(contract, kind, key).len() as int,
                    from,
                    after.outcome(kind),
                ),
            }
        }),
{
    reading_reads(contract, kind, key, before);
    reading_reads(contract, kind, key, after);
    let steps = around_steps(contract, kind, key, f, before, after);
    let n = before.steps(contract, kind, key).len() as int;
    if before.outcome(kind) is Ok {
        assert(steps.take(n) =~= before.steps(contract, kind, key));
        assert(steps.skip(n + 1) =~= after.steps(contract, kind, key));
    }
}

/// The same on a host: where the entry is alive, the first reading tells its TTL
/// and the call is run, and it finds the ledger and every TTL as they were; the
/// second reading tells the TTL that the call left. Where the entry is not alive,
/// there is no run. An expired instance is left out: the host restores it.
proof fn around_reads_the_ttls<F>(
    worlds: Seq<World>,
    contract: Address,
    kind: StorageKind,
    key: Val,
    f: F,
    before: Reading,
    after: Reading,
)
    requires
        history(worlds, around_steps(contract, kind, key, f, before, after)),
        kind is Instance ==> !worlds[0].expired(place(contract, kind, key)),
    ensures
        ({
            let at = place(contract, kind, key);
            let steps = around_steps(contract, kind, key, f, before, after);
            let n = before.steps(contract, kind, key).len() as int;
            match worlds[0].ttl(at) {
                None => before.outcome(kind) == Err::<u32, TestkitError>(
                    TestkitError::EntryUnavailable,
                ) && only_reads(steps),
                Some(from) => {
                    &&& before.outcome(kind) == Ok::<u32, TestkitError>(from)
                    &&& n < steps.len()
                    &&& steps[n] == run_step(f)
                    &&& worlds[n].same_ttls(worlds[0])
                    &&& worlds[n].ttl(at) == Some(from)
                    &&& !(kind is Instance && worlds[n + 1].expired(at)) ==> after.outcome(kind)
                        == match worlds[n + 1].ttl(at) {
                        Some(to) => Ok::<u32, TestkitError>(to),
                        None => Err(TestkitError::EntryUnavailable),
                    }
                },
            }
        }),
{
    let at = place(contract, kind, key);
    let first = before.steps(contract, kind, key);
    let last = after.steps(contract, kind, key);
    let n = first.len() as int;
    reading_reads(contract, kind, key, before);
    if before.outcome(kind) is Ok {
        history_splits(worlds, first.push(run_step(f)), last);
        assert(first.push(run_step(f)) =~= first + seq![run_step(f)]);
        history_splits(worlds.take(n + 2), first, seq![run_step(f)]);
        let earlier = worlds.take(n + 2).take(n + 1);
        let later = worlds.skip(n + 1);
        reading_tells_and_leaves_the_ttl(earlier, contract, kind, key, before);
        assert(earlier.last() == worlds[n] && earlier[0] == worlds[0]);
        assert(worlds[n].ttl(at) == worlds[0].ttl(at));
        assert(later[0] == worlds[n + 1]);
        if !(kind is Instance && worlds[n + 1].expired(at)) {
            reading_tells_and_leaves_the_ttl(later, contract, kind, key, after);
        }
    } else {
        reading_tells_and_leaves_the_ttl(worlds, contract, kind, key, before);
    }
}

/// The text of the assertion that a call extended a TTL, by what was measured.
pub open spec fn bump_text(kind: StorageKind, from: u32, to: u32) -> Seq<char> {
    "expected the call to extend the "@ + kind.label() + " TTL beyond "@ + natural_text(
        from as nat,
    ) + ", but it was "@ + natural_text(to as nat) + " afterward"@
}

/// The text of the inverse assertion.
pub open spec fn no_bump_text(kind: StorageKind, from: u32, to: u32) -> Seq<char> {
    "expected the call to NOT extend the "@ + kind.label() + " TTL, but it went from "@
        + natural_text(from as nat) + " to "@ + natural_text(to as nat)
}

/// The text of the assertion on the exact change.
pub open spec fn delta_text(kind: StorageKind, expected: i64, from: u32, to: u32) -> Seq<char> {
    "expected the call to change the "@ + kind.label() + " TTL by "@ + integer_text(
        expected as int,
    ) + " ledgers, but it went from "@ + natural_text(from as nat) + " to "@ + natural_text(
        to as nat,
    ) + " ("@ + integer_text(to - from) + ")"@
}

/// `assert_bumps_ttl` reads the entry's TTL, runs the call, and reads the TTL again,
/// and does nothing else. Where a reading tells no TTL, it fails as that reading
/// does, and the call is not run if it is the first. Where both tell one, it
/// holds exactly where the second is the greater of the two, and otherwise says
/// what the two are.
pub proof fn bump_judges_what_was_read<F: FnOnce()>(
    env: &mut TestEnv,
    contract: &Address,
    kind: StorageKind,
    key: &Val,
    f: UnderTest<F>,
    result: Result<(), TestkitError>,
)
    requires
        call_ensures(TestEnv::assert_bumps_ttl::<F>, (env, contract, kind, key, f), result),
    ensures
        continues(*old(env), *final(env)),
        ({
            let steps = since(*old(env), *final(env));
            let at = place(*contract, kind, *key);
            ||| {
                &&& reads(steps, kind, at)
                &&& told(steps) matches Err(error) && result == Err::<(), TestkitError>(error)
            }
            ||| exists|run: int, from: u32, to: Result<u32, TestkitError>|
                {
                    &&& #[trigger] reads_around(steps, kind, at, f.code(), run, from, to)
                    &&& f.code().ensures((), ())
                    &&& match to {
                        Err(error) => result == Err::<(), TestkitError>(error),
                        Ok(to) => {
                            &&& result is Ok <==> to > from
                            &&& result is Err ==> says(result, bump_text(kind, from, to))
                        },
                    }
                }
        }),
{
    let pre = *old(env);
    let post = *final(env);
    let (before, after) = choose|before: Reading, after: Reading|
        {
            &&& post.steps() == pre.steps() + #[trigger] around_steps(
                *contract,
                kind,
                *key,
                f.code(),
                before,
                after,
            )
            &&& before.outcome(kind) is Ok ==> f.code().ensures((), ())
            &&& match (before.outcome(kind), after.outcome(kind)) {
                (Err(error), _) => result == Err::<(), TestkitError>(error),
                (_, Err(error)) => result == Err::<(), TestkitError>(error),
                (Ok(from), Ok(to)) => {
                    &&& result is Ok <==> to > from
                    &&& result is Err ==> says(result, bump_text(kind, from, to))
                },
            }
        };
    let steps = around_steps(*contract, kind, *key, f.code(), before, after);
    since_is_what_was_added(pre, post, steps);
    around_reads(*contract, kind, *key, f.code(), before, after);
}

/// On a host, where the entry is alive, `assert_bumps_ttl` runs the call, which
/// finds the ledger and every TTL as they were. Where the entry is still alive
/// behind it, the assertion holds exactly where the TTL that the call left
/// is greater than the one that it found; where it is not, and
/// where it was not alive to begin with, it fails as unavailable, in the latter
/// case without running the call. An expired instance is left out: the host
/// restores it.
pub proof fn bump_judges_the_call<F: FnOnce()>(
    env: &mut TestEnv,
    contract: &Address,
    kind: StorageKind,
    key: &Val,
    f: UnderTest<F>,
    result: Result<(), TestkitError>,
    worlds: Seq<World>,
)
    requires
        call_ensures(TestEnv::assert_bumps_ttl::<F>, (env, contract, kind, key, f), result),
        history(worlds, since(*old(env), *final(env))),
        kind is Instance ==> !worlds[0].expired(place(*contract, kind, *key)),
    ensures
        ({
            let steps = since(*old(env), *final(env));
            let at = place(*contract, kind, *key);
            match worlds[0].ttl(at) {
                None => {
                    &&& result == Err::<(), TestkitError>(TestkitError::EntryUnavailable)
                    &&& only_reads(steps)
                },
                Some(from) => exists|run: int|
                    {
                        &&& 0 <= run < steps.len()
                        &&& #[trigger] steps[run] == run_step(f.code())
                        &&& f.code().ensures((), ())
                        &&& worlds[run].same_ttls(worlds[0])
                        &&& kind is Instance && worlds[run + 1].expired(at) || match worlds[run
                            + 1].ttl(at) {
                            None => result == Err::<(), TestkitError>(
                                TestkitError::EntryUnavailable,
                            ),
                            Some(to) => {
                                &&& result is Ok <==> to > from
                                &&& result is Err ==> says(result, bump_text(kind, from, to))
                            },
                        }
                    },
            }
        }),
{
    let pre = *old(env);
    let post = *final(env);
    let (before, after) = choose|before: Reading, after: Reading|
        {
            &&& post.steps() == pre.steps() + #[trigger] around_steps(
                *contract,
                kind,
                *key,
                f.code(),
                before,
                after,
            )
            &&& before.outcome(kind) is Ok ==> f.code().ensures((), ())
            &&& match (before.outcome(kind), after.outcome(kind)) {
                (Err(error), _) => result == Err::<(), TestkitError>(error),
                (_, Err(error)) => result == Err::<(), TestkitError>(error),
                (Ok(from), Ok(to)) => {
                    &&& result is Ok <==> to > from
                    &&& result is Err ==> says(result, bump_text(kind, from, to))
                },
            }
        };
    let steps = around_steps(*contract, kind, *key, f.code(), before, after);
    since_is_what_was_added(pre, post, steps);
    around_reads_the_ttls(worlds, *contract, kind, *key, f.code(), before, after);
    let n = before.steps(*contract, kind, *key).len() as int;
    if worlds[0].ttl(place(*contract, kind, *key)) is Some {
        assert(since(pre, post)[n] == run_step(f.code()));
    }
}

/// `assert_no_ttl_bump` reads the entry's TTL, runs the call, and reads the TTL again,
/// and does nothing else. Where a reading tells no TTL, it fails as that reading
/// does, and the call is not run if it is the first. Where both tell one, it
/// holds exactly where the second is not the greater of the two, and otherwise says
/// what the two are.
pub proof fn no_bump_judges_what_was_read<F: FnOnce()>(
    env: &mut TestEnv,
    contract: &Address,
    kind: StorageKind,
    key: &Val,
    f: UnderTest<F>,
    result: Result<(), TestkitError>,
)
    requires
        call_ensures(TestEnv::assert_no_ttl_bump::<F>, (env, contract, kind, key, f), result),
    ensures
        continues(*old(env), *final(env)),
        ({
            let steps = since(*old(env), *final(env));
            let at = place(*contract, kind, *key);
            ||| {
                &&& reads(steps, kind, at)
                &&& told(steps) matches Err(error) && result == Err::<(), TestkitError>(error)
            }
            ||| exists|run: int, from: u32, to: Result<u32, TestkitError>|
                {
                    &&& #[trigger] reads_around(steps, kind, at, f.code(), run, from, to)
                    &&& f.code().ensures((), ())
                    &&& match to {
                        Err(error) => result == Err::<(), TestkitError>(error),
                        Ok(to) => {
                            &&& result is Ok <==> to <= from
                            &&& result is Err ==> says(result, no_bump_text(kind, from, to))
                        },
                    }
                }
        }),
{
    let pre = *old(env);
    let post = *final(env);
    let (before, after) = choose|before: Reading, after: Reading|
        {
            &&& post.steps() == pre.steps() + #[trigger] around_steps(
                *contract,
                kind,
                *key,
                f.code(),
                before,
                after,
            )
            &&& before.outcome(kind) is Ok ==> f.code().ensures((), ())
            &&& match (before.outcome(kind), after.outcome(kind)) {
                (Err(error), _) => result == Err::<(), TestkitError>(error),
                (_, Err(error)) => result == Err::<(), TestkitError>(error),
                (Ok(from), Ok(to)) => {
                    &&& result is Ok <==> to <= from
                    &&& result is Err ==> says(result, no_bump_text(kind, from, to))
                },
            }
        };
    let steps = around_steps(*contract, kind, *key, f.code(), before, after);
    since_is_what_was_added(pre, post, steps);
    around_reads(*contract, kind, *key, f.code(), before, after);
}

/// On a host, where the entry is alive, `assert_no_ttl_bump` runs the call, which
/// finds the ledger and every TTL as they were. Where the entry is still alive
/// behind it, the assertion holds exactly where the TTL that the call left
/// is not greater than the one that it found; where it is not, and
/// where it was not alive to begin with, it fails as unavailable, in the latter
/// case without running the call. An expired instance is left out: the host
/// restores it.
pub proof fn no_bump_judges_the_call<F: FnOnce()>(
    env: &mut TestEnv,
    contract: &Address,
    kind: StorageKind,
    key: &Val,
    f: UnderTest<F>,
    result: Result<(), TestkitError>,
    worlds: Seq<World>,
)
    requires
        call_ensures(TestEnv::assert_no_ttl_bump::<F>, (env, contract, kind, key, f), result),
        history(worlds, since(*old(env), *final(env))),
        kind is Instance ==> !worlds[0].expired(place(*contract, kind, *key)),
    ensures
        ({
            let steps = since(*old(env), *final(env));
            let at = place(*contract, kind, *key);
            match worlds[0].ttl(at) {
                None => {
                    &&& result == Err::<(), TestkitError>(TestkitError::EntryUnavailable)
                    &&& only_reads(steps)
                },
                Some(from) => exists|run: int|
                    {
                        &&& 0 <= run < steps.len()
                        &&& #[trigger] steps[run] == run_step(f.code())
                        &&& f.code().ensures((), ())
                        &&& worlds[run].same_ttls(worlds[0])
                        &&& kind is Instance && worlds[run + 1].expired(at) || match worlds[run
                            + 1].ttl(at) {
                            None => result == Err::<(), TestkitError>(
                                TestkitError::EntryUnavailable,
                            ),
                            Some(to) => {
                                &&& result is Ok <==> to <= from
                                &&& result is Err ==> says(result, no_bump_text(kind, from, to))
                            },
                        }
                    },
            }
        }),
{
    let pre = *old(env);
    let post = *final(env);
    let (before, after) = choose|before: Reading, after: Reading|
        {
            &&& post.steps() == pre.steps() + #[trigger] around_steps(
                *contract,
                kind,
                *key,
                f.code(),
                before,
                after,
            )
            &&& before.outcome(kind) is Ok ==> f.code().ensures((), ())
            &&& match (before.outcome(kind), after.outcome(kind)) {
                (Err(error), _) => result == Err::<(), TestkitError>(error),
                (_, Err(error)) => result == Err::<(), TestkitError>(error),
                (Ok(from), Ok(to)) => {
                    &&& result is Ok <==> to <= from
                    &&& result is Err ==> says(result, no_bump_text(kind, from, to))
                },
            }
        };
    let steps = around_steps(*contract, kind, *key, f.code(), before, after);
    since_is_what_was_added(pre, post, steps);
    around_reads_the_ttls(worlds, *contract, kind, *key, f.code(), before, after);
    let n = before.steps(*contract, kind, *key).len() as int;
    if worlds[0].ttl(place(*contract, kind, *key)) is Some {
        assert(since(pre, post)[n] == run_step(f.code()));
    }
}

/// `assert_ttl_delta` reads the entry's TTL, runs the call, and reads the TTL again,
/// and does nothing else. Where a reading tells no TTL, it fails as that reading
/// does, and the call is not run if it is the first. Where both tell one, it
/// holds exactly where they differ by the amount expected, and otherwise says
/// what the two are.
pub proof fn delta_judges_what_was_read<F: FnOnce()>(
    env: &mut TestEnv,
    contract: &Address,
    kind: StorageKind,
    key: &Val,
    expected_delta: i64,
    f: UnderTest<F>,
    result: Result<(), TestkitError>,
)
    requires
        call_ensures(TestEnv::assert_ttl_delta::<F>, (env, contract, kind, key, expected_delta, f), result),
    ensures
        continues(*old(env), *final(env)),
        ({
            let steps = since(*old(env), *final(env));
            let at = place(*contract, kind, *key);
            ||| {
                &&& reads(steps, kind, at)
                &&& told(steps) matches Err(error) && result == Err::<(), TestkitError>(error)
            }
            ||| exists|run: int, from: u32, to: Result<u32, TestkitError>|
                {
                    &&& #[trigger] reads_around(steps, kind, at, f.code(), run, from, to)
                    &&& f.code().ensures((), ())
                    &&& match to {
                        Err(error) => result == Err::<(), TestkitError>(error),
                        Ok(to) => {
                            &&& result is Ok <==> to - from == expected_delta
                            &&& result is Err ==> says(result, delta_text(kind, expected_delta, from, to))
                        },
                    }
                }
        }),
{
    let pre = *old(env);
    let post = *final(env);
    let (before, after) = choose|before: Reading, after: Reading|
        {
            &&& post.steps() == pre.steps() + #[trigger] around_steps(
                *contract,
                kind,
                *key,
                f.code(),
                before,
                after,
            )
            &&& before.outcome(kind) is Ok ==> f.code().ensures((), ())
            &&& match (before.outcome(kind), after.outcome(kind)) {
                (Err(error), _) => result == Err::<(), TestkitError>(error),
                (_, Err(error)) => result == Err::<(), TestkitError>(error),
                (Ok(from), Ok(to)) => {
                    &&& result is Ok <==> to - from == expected_delta
                    &&& result is Err ==> says(result, delta_text(kind, expected_delta, from, to))
                },
            }
        };
    let steps = around_steps(*contract, kind, *key, f.code(), before, after);
    since_is_what_was_added(pre, post, steps);
    around_reads(*contract, kind, *key, f.code(), before, after);
}

/// On a host, where the entry is alive, `assert_ttl_delta` runs the call, which
/// finds the ledger and every TTL as they were. Where the entry is still alive
/// behind it, the assertion holds exactly where the TTL that the call left
/// differs by the amount expected from the one that it found; where it is not, and
/// where it was not alive to begin with, it fails as unavailable, in the latter
/// case without running the call. An expired instance is left out: the host
/// restores it.
pub proof fn delta_judges_the_call<F: FnOnce()>(
    env: &mut TestEnv,
    contract: &Address,
    kind: StorageKind,
    key: &Val,
    expected_delta: i64,
    f: UnderTest<F>,
    result: Result<(), TestkitError>,
    worlds: Seq<World>,
)
    requires
        call_ensures(TestEnv::assert_ttl_delta::<F>, (env, contract, kind, key, expected_delta, f), result),
        history(worlds, since(*old(env), *final(env))),
        kind is Instance ==> !worlds[0].expired(place(*contract, kind, *key)),
    ensures
        ({
            let steps = since(*old(env), *final(env));
            let at = place(*contract, kind, *key);
            match worlds[0].ttl(at) {
                None => {
                    &&& result == Err::<(), TestkitError>(TestkitError::EntryUnavailable)
                    &&& only_reads(steps)
                },
                Some(from) => exists|run: int|
                    {
                        &&& 0 <= run < steps.len()
                        &&& #[trigger] steps[run] == run_step(f.code())
                        &&& f.code().ensures((), ())
                        &&& worlds[run].same_ttls(worlds[0])
                        &&& kind is Instance && worlds[run + 1].expired(at) || match worlds[run
                            + 1].ttl(at) {
                            None => result == Err::<(), TestkitError>(
                                TestkitError::EntryUnavailable,
                            ),
                            Some(to) => {
                                &&& result is Ok <==> to - from == expected_delta
                                &&& result is Err ==> says(result, delta_text(kind, expected_delta, from, to))
                            },
                        }
                    },
            }
        }),
{
    let pre = *old(env);
    let post = *final(env);
    let (before, after) = choose|before: Reading, after: Reading|
        {
            &&& post.steps() == pre.steps() + #[trigger] around_steps(
                *contract,
                kind,
                *key,
                f.code(),
                before,
                after,
            )
            &&& before.outcome(kind) is Ok ==> f.code().ensures((), ())
            &&& match (before.outcome(kind), after.outcome(kind)) {
                (Err(error), _) => result == Err::<(), TestkitError>(error),
                (_, Err(error)) => result == Err::<(), TestkitError>(error),
                (Ok(from), Ok(to)) => {
                    &&& result is Ok <==> to - from == expected_delta
                    &&& result is Err ==> says(result, delta_text(kind, expected_delta, from, to))
                },
            }
        };
    let steps = around_steps(*contract, kind, *key, f.code(), before, after);
    since_is_what_was_added(pre, post, steps);
    around_reads_the_ttls(worlds, *contract, kind, *key, f.code(), before, after);
    let n = before.steps(*contract, kind, *key).len() as int;
    if worlds[0].ttl(place(*contract, kind, *key)) is Some {
        assert(since(pre, post)[n] == run_step(f.code()));
    }
}

} // verus!
