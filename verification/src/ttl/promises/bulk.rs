//! What `assert_bumps_ttl_multi` promises.

use crate::error::{reports, TestkitError};
use crate::sdk::{run_step, Step, TestEnv, UnderTest};
use crate::text::{indented, natural_text};
use crate::ttl::expiry::{bulk_steps, labelled};
use crate::ttl::laws::reading_tells_and_leaves_the_ttl;
use crate::ttl::promises::{reading_leaves_what_is_alive, reading_reads, since_is_what_was_added};
use crate::ttl::reading::{goes_through, last_error, readings_steps, Reading};
use crate::ttl::record::{continues, joined, only_reads, reads, says, since, told};
use crate::ttl::snapshot::StorageKind;
use crate::ttl::verdict::{bump_all_failure, stale_lines, LabelledTtl};
use crate::ttl::world::{history, history_splits, place, Place, World};
use soroban_sdk::{Address, Val};
use vstd::prelude::*;

verus! {

/// The steps of each of a round of readings.
spec fn parts_of(
    contract: Address,
    kind: StorageKind,
    keys: Seq<(Val, &str)>,
    readings: Seq<Reading>,
) -> Seq<Seq<Step>> {
    Seq::new(readings.len(), |i: int| readings[i].steps(contract, kind, keys[i].0))
}

/// Whether the steps are a round of readings of the keys' entries, in the order
/// of the keys: each of `parts` reads the TTL of the entry under its own key. The
/// round goes on to the last key, or ends with the first part that tells no TTL.
pub open spec fn reads_in_turn(
    steps: Seq<Step>,
    contract: Address,
    kind: StorageKind,
    keys: Seq<(Val, &str)>,
    parts: Seq<Seq<Step>>,
) -> bool {
    &&& steps == joined(parts)
    &&& parts.len() <= keys.len()
    &&& forall|i: int|
        0 <= i < parts.len() ==> reads(
            #[trigger] parts[i],
            kind,
            place(contract, kind, keys[i].0),
        )
    &&& forall|i: int| 0 <= i < parts.len() - 1 ==> told(#[trigger] parts[i]) is Ok
    &&& parts.len() < keys.len() ==> parts.len() > 0 && told(parts.last()) is Err
}

/// A round of readings is one by its steps too.
proof fn readings_read_in_turn(
    contract: Address,
    kind: StorageKind,
    keys: Seq<(Val, &str)>,
    readings: Seq<Reading>,
)
    requires
        readings.len() <= keys.len(),
    ensures
        readings_steps(contract, kind, keys, readings) == joined(
            parts_of(contract, kind, keys, readings),
        ),
        forall|i: int|
            0 <= i < readings.len() ==> {
                &&& reads(
                    #[trigger] parts_of(contract, kind, keys, readings)[i],
                    kind,
                    place(contract, kind, keys[i].0),
                )
                &&& told(parts_of(contract, kind, keys, readings)[i]) == readings[i].outcome(kind)
            },
        only_reads(readings_steps(contract, kind, keys, readings)),
    decreases readings.len(),
{
    let parts = parts_of(contract, kind, keys, readings);
    if readings.len() > 0 {
        let fewer = readings.drop_last();
        readings_read_in_turn(contract, kind, keys, fewer);
        assert(parts.drop_last() =~= parts_of(contract, kind, keys, fewer));
        reading_reads(contract, kind, keys[readings.len() - 1].0, readings.last());
        assert forall|i: int| 0 <= i < readings.len() implies {
            &&& reads(#[trigger] parts[i], kind, place(contract, kind, keys[i].0))
            &&& told(parts[i]) == readings[i].outcome(kind)
        } by {
            reading_reads(contract, kind, keys[i].0, readings[i]);
        }
    }
}

/// On a host each of a round of readings tells the TTL of its own key's entry, and
/// the round leaves the ledger and every TTL as they were.
proof fn readings_tell_the_ttls(
    worlds: Seq<World>,
    contract: Address,
    kind: StorageKind,
    keys: Seq<(Val, &str)>,
    readings: Seq<Reading>,
)
    requires
        history(worlds, readings_steps(contract, kind, keys, readings)),
        readings.len() <= keys.len(),
        forall|i: int|
            0 <= i < readings.len() && kind is Instance ==> !worlds[0].expired(
                place(contract, kind, (#[trigger] keys[i]).0),
            ),
    ensures
        forall|i: int|
            0 <= i < readings.len() ==> (#[trigger] readings[i]).outcome(kind)
                == match worlds[0].ttl(place(contract, kind, keys[i].0)) {
                Some(ttl) => Ok::<u32, TestkitError>(ttl),
                None => Err(TestkitError::EntryUnavailable),
            },
        worlds.last().same_ttls(worlds[0]),
        kind is Instance ==> worlds.last() == worlds[0],
    decreases readings.len(),
{
    if readings.len() > 0 {
        let fewer = readings.drop_last();
        let n = readings.len() - 1;
        let first = readings_steps(contract, kind, keys, fewer);
        let last = readings.last().steps(contract, kind, keys[n].0);
        history_splits(worlds, first, last);
        let earlier = worlds.take(first.len() + 1int);
        let later = worlds.skip(first.len() as int);
        readings_tell_the_ttls(earlier, contract, kind, keys, fewer);
        assert(earlier.last() == later[0] && earlier[0] == worlds[0]);
        assert(later.last() == worlds.last());
        assert(kind is Instance ==> !worlds[0].expired(place(contract, kind, keys[n].0)));
        reading_tells_and_leaves_the_ttl(later, contract, kind, keys[n].0, readings.last());
        reading_leaves_what_is_alive(later, contract, kind, keys[n].0, readings.last());
        assert(later[0].ttl(place(contract, kind, keys[n].0)) == worlds[0].ttl(
            place(contract, kind, keys[n].0),
        ));
        assert forall|i: int| 0 <= i < readings.len() implies (
        #[trigger] readings[i]).outcome(kind) == match worlds[0].ttl(
            place(contract, kind, keys[i].0),
        ) {
            Some(ttl) => Ok::<u32, TestkitError>(ttl),
            None => Err(TestkitError::EntryUnavailable),
        } by {
            if i < n {
                assert(fewer[i] == readings[i]);
            }
        }
        assert forall|at: Place|
            #[trigger] worlds.last().ttl(at) == worlds[0].ttl(at) by {
            assert(later.last().ttl(at) == later[0].ttl(at));
            assert(earlier.last().ttl(at) == earlier[0].ttl(at));
        }
    }
}

/// The text of the bulk assertion: a line for each entry whose TTL did not grow,
/// in the order of the keys, with the key's label and the two TTLs.
pub open spec fn bulk_text(kind: StorageKind, entries: Seq<LabelledTtl>) -> Seq<char> {
    "expected the call to extend the "@ + kind.label()
        + " TTL for all keys, but some did not:"@ + stale_text(entries)
}

/// The lines of that text.
pub open spec fn stale_text(entries: Seq<LabelledTtl>) -> Seq<char>
    decreases entries.len(),
{
    if entries.len() == 0 {
        Seq::empty()
    } else {
        let entry = entries.last();
        stale_text(entries.drop_last()) + if entry.after > entry.before {
            Seq::empty()
        } else {
            "\n  "@ + entry.label@ + ": expected > "@ + natural_text(entry.before as nat)
                + ", got "@ + natural_text(entry.after as nat)
        }
    }
}

/// The lines of the entries whose TTL was not extended are those of the text.
pub(crate) proof fn stale_lines_are_the_text(entries: Seq<LabelledTtl>)
    ensures
        indented(stale_lines(entries)) == stale_text(entries),
    decreases entries.len(),
{
    reveal(Seq::filter);
    if entries.len() > 0 {
        let fewer = entries.drop_last();
        let entry = entries.last();
        stale_lines_are_the_text(fewer);
        let lines = stale_lines(fewer);
        if entry.after > entry.before {
            assert(stale_lines(entries) =~= lines);
            assert(stale_text(entries) =~= stale_text(fewer));
        } else {
            assert(stale_lines(entries) =~= lines.push(entry.line()));
            assert(lines.push(entry.line()).drop_last() =~= lines);
            assert(indented(stale_lines(entries)) =~= stale_text(entries));
        }
    } else {
        assert(stale_lines(entries) =~= Seq::empty());
    }
}

/// Whether the steps read the TTLs of the keys' entries, run `f`, and read the
/// TTLs again, with the run at `run` and the readings in the given parts. The
/// first round goes through all the keys.
pub open spec fn reads_all_around<F>(
    steps: Seq<Step>,
    contract: Address,
    kind: StorageKind,
    keys: Seq<(Val, &str)>,
    f: F,
    run: int,
    befores: Seq<Seq<Step>>,
    afters: Seq<Seq<Step>>,
) -> bool {
    &&& 0 <= run < steps.len()
    &&& steps[run] == run_step(f)
    &&& reads_in_turn(steps.take(run), contract, kind, keys, befores)
    &&& befores.len() == keys.len()
    &&& forall|i: int| 0 <= i < befores.len() ==> told(#[trigger] befores[i]) is Ok
    &&& reads_in_turn(steps.skip(run + 1), contract, kind, keys, afters)
}

/// The keys' labels with the TTLs that two rounds of readings tell.
pub open spec fn told_of<'a>(
    keys: Seq<(Val, &'a str)>,
    befores: Seq<Seq<Step>>,
    afters: Seq<Seq<Step>>,
) -> Seq<LabelledTtl<'a>> {
    Seq::new(
        keys.len(),
        |i: int|
            LabelledTtl {
                label: keys[i].1,
                before: told(befores[i])->Ok_0,
                after: told(afters[i])->Ok_0,
            },
    )
}

/// `assert_bumps_ttl_multi` reads the TTL of every key's own entry, in the order of
/// the keys, runs the call, and reads the TTLs again, and does nothing else. Where
/// a reading tells no TTL, it fails as that reading does, and the call is not run
/// if it is one of the first round. Where all tell one, it holds exactly where
/// every key's second TTL is greater than its first, and otherwise names each key
/// of which that is not so, with the two.
#[verifier::spinoff_prover]
#[verifier::rlimit(40)]
pub proof fn bulk_bump_judges_what_was_read<F: FnOnce()>(
    env: &mut TestEnv,
    contract: &Address,
    kind: StorageKind,
    keys: &[(Val, &str)],
    f: UnderTest<F>,
    result: Result<(), TestkitError>,
)
    requires
        call_ensures(
            TestEnv::assert_bumps_ttl_multi::<F>,
            (env, contract, kind, keys, f),
            result,
        ),
    ensures
        continues(*old(env), *final(env)),
        ({
            let steps = since(*old(env), *final(env));
            ||| exists|parts: Seq<Seq<Step>>|
                {
                    &&& #[trigger] reads_in_turn(steps, *contract, kind, keys@, parts)
                    &&& parts.len() > 0
                    &&& told(parts.last()) matches Err(error) && result == Err::<
                        (),
                        TestkitError,
                    >(error)
                }
            ||| exists|run: int, befores: Seq<Seq<Step>>, afters: Seq<Seq<Step>>|
                {
                    &&& #[trigger] reads_all_around(
                        steps,
                        *contract,
                        kind,
                        keys@,
                        f.code(),
                        run,
                        befores,
                        afters,
                    )
                    &&& f.code().ensures((), ())
                    &&& if afters.len() > 0 && told(afters.last()) is Err {
                        result == Err::<(), TestkitError>(told(afters.last())->Err_0)
                    } else {
                        &&& afters.len() == keys@.len()
                        &&& result is Ok <==> forall|i: int|
                            0 <= i < keys@.len() ==> told(#[trigger] afters[i])->Ok_0 > told(
                                befores[i],
                            )->Ok_0
                        &&& result is Err ==> says(
                            result,
                            bulk_text(kind, told_of(keys@, befores, afters)),
                        )
                    }
                }
        }),
{
    let pre = *old(env);
    let post = *final(env);
    let (befores, afters) = choose|befores: Seq<Reading>, afters: Seq<Reading>|
        {
            &&& goes_through(keys@.len(), kind, befores)
            &&& post.steps() == pre.steps() + #[trigger] bulk_steps(
                *contract,
                kind,
                keys@,
                f.code(),
                befores,
                afters,
            )
            &&& match last_error(kind, befores) {
                Some(error) => result == Err::<(), TestkitError>(error),
                None => {
                    &&& f.code().ensures((), ())
                    &&& goes_through(keys@.len(), kind, afters)
                    &&& match last_error(kind, afters) {
                        Some(error) => result == Err::<(), TestkitError>(error),
                        None => reports(
                            result,
                            bump_all_failure(kind, labelled(kind, keys@, befores, afters)),
                        ),
                    }
                },
            }
        };
    let steps = bulk_steps(*contract, kind, keys@, f.code(), befores, afters);
    since_is_what_was_added(pre, post, steps);
    let first = readings_steps(*contract, kind, keys@, befores);
    let last = readings_steps(*contract, kind, keys@, afters);
    let entries = labelled(kind, keys@, befores, afters);
    let n = first.len() as int;
    stale_lines_are_the_text(entries);
    readings_read_in_turn(*contract, kind, keys@, befores);
    let before_parts = parts_of(*contract, kind, keys@, befores);
    if last_error(kind, befores) is Some {
        assert forall|i: int| 0 <= i < before_parts.len() - 1 implies told(
            #[trigger] before_parts[i],
        ) is Ok by {
            assert(befores[i].outcome(kind) is Ok);
        }
        assert(told(before_parts[before_parts.len() - 1]) == befores.last().outcome(kind));
        assert(reads_in_turn(steps, *contract, kind, keys@, before_parts));
    } else {
        let after_parts = parts_of(*contract, kind, keys@, afters);
        readings_read_in_turn(*contract, kind, keys@, afters);
        assert(steps.take(n) =~= first);
        assert(steps.skip(n + 1) =~= last);
        assert forall|i: int| 0 <= i < before_parts.len() implies told(
            #[trigger] before_parts[i],
        ) is Ok by {
            assert(befores[i].outcome(kind) is Ok);
        }
        assert forall|i: int| 0 <= i < after_parts.len() - 1 implies told(
            #[trigger] after_parts[i],
        ) is Ok by {
            assert(afters[i].outcome(kind) is Ok);
        }
        if afters.len() > 0 {
            assert(told(after_parts[after_parts.len() - 1]) == afters.last().outcome(kind));
        }
        assert(reads_all_around(
            steps,
            *contract,
            kind,
            keys@,
            f.code(),
            n,
            before_parts,
            after_parts,
        ));
        if last_error(kind, afters) is None {
            assert forall|i: int| 0 <= i < keys@.len() implies told(#[trigger] after_parts[i])
                == afters[i].outcome(kind) && told(before_parts[i]) == befores[i].outcome(kind)
                && entries[i] == told_of(keys@, before_parts, after_parts)[i] by {
                assert(told(before_parts[i]) == befores[i].outcome(kind));
            }
            assert(entries =~= told_of(keys@, before_parts, after_parts));
            assert(forall|i: int|
                0 <= i < keys@.len() ==> ((#[trigger] entries[i]).bumped() <==> told(
                    after_parts[i],
                )->Ok_0 > told(before_parts[i])->Ok_0));
            if result is Ok {
                assert forall|i: int| 0 <= i < keys@.len() implies told(
                    #[trigger] after_parts[i],
                )->Ok_0 > told(before_parts[i])->Ok_0 by {
                    assert(entries[i].bumped());
                }
            }
        }
    }
}

/// The keys' labels with the TTLs of their entries in two worlds.
pub open spec fn ttls_in<'a>(
    contract: Address,
    kind: StorageKind,
    keys: Seq<(Val, &'a str)>,
    met: World,
    left: World,
) -> Seq<LabelledTtl<'a>> {
    Seq::new(
        keys.len(),
        |i: int|
            LabelledTtl {
                label: keys[i].1,
                before: met.ttl(place(contract, kind, keys[i].0))->Some_0,
                after: left.ttl(place(contract, kind, keys[i].0))->Some_0,
            },
    )
}

/// Whether every key's entry is alive.
pub open spec fn all_alive(
    world: World,
    contract: Address,
    kind: StorageKind,
    keys: Seq<(Val, &str)>,
) -> bool {
    forall|i: int|
        0 <= i < keys.len() ==> world.ttl(place(contract, kind, (#[trigger] keys[i]).0)) is Some
}

/// Whether the keys' entries are an instance that has expired.
pub open spec fn instance_expired(
    world: World,
    contract: Address,
    kind: StorageKind,
    keys: Seq<(Val, &str)>,
) -> bool {
    kind is Instance && exists|i: int|
        0 <= i < keys.len() && world.expired(place(contract, kind, (#[trigger] keys[i]).0))
}

/// On a host, where every key's entry is alive, `assert_bumps_ttl_multi` runs the
/// call, which finds the ledger and every TTL as they were. Where all the entries
/// are still alive behind it, the assertion holds exactly where every key's own
/// TTL grew over the call, and otherwise names the keys of which that is not so,
/// with the TTL that the call found and the one that it left; where one is not
/// alive any more, and where one was not alive to begin with, it fails as
/// unavailable, in the latter case without running the call. An expired instance
/// is left out: the host restores it.
#[verifier::spinoff_prover]
#[verifier::rlimit(40)]
pub proof fn bulk_bump_judges_every_key<F: FnOnce()>(
    env: &mut TestEnv,
    contract: &Address,
    kind: StorageKind,
    keys: &[(Val, &str)],
    f: UnderTest<F>,
    result: Result<(), TestkitError>,
    worlds: Seq<World>,
)
    requires
        call_ensures(
            TestEnv::assert_bumps_ttl_multi::<F>,
            (env, contract, kind, keys, f),
            result,
        ),
        history(worlds, since(*old(env), *final(env))),
        !instance_expired(worlds[0], *contract, kind, keys@),
    ensures
        ({
            let steps = since(*old(env), *final(env));
            if !all_alive(worlds[0], *contract, kind, keys@) {
                &&& result == Err::<(), TestkitError>(TestkitError::EntryUnavailable)
                &&& only_reads(steps)
            } else {
                exists|run: int|
                    {
                        let met = worlds[run];
                        let left = worlds[run + 1];
                        &&& 0 <= run < steps.len()
                        &&& #[trigger] steps[run] == run_step(f.code())
                        &&& f.code().ensures((), ())
                        &&& met.same_ttls(worlds[0])
                        &&& if instance_expired(left, *contract, kind, keys@) {
                            true
                        } else if !all_alive(left, *contract, kind, keys@) {
                            result == Err::<(), TestkitError>(TestkitError::EntryUnavailable)
                        } else {
                            &&& result is Ok <==> forall|i: int|
                                0 <= i < keys@.len() ==> left.ttl(
                                    place(*contract, kind, (#[trigger] keys@[i]).0),
                                )->Some_0 > met.ttl(place(*contract, kind, keys@[i].0))->Some_0
                            &&& result is Err ==> says(
                                result,
                                bulk_text(kind, ttls_in(*contract, kind, keys@, met, left)),
                            )
                        }
                    }
            }
        }),
{
    let pre = *old(env);
    let post = *final(env);
    let (befores, afters) = choose|befores: Seq<Reading>, afters: Seq<Reading>|
        {
            &&& goes_through(keys@.len(), kind, befores)
            &&& post.steps() == pre.steps() + #[trigger] bulk_steps(
                *contract,
                kind,
                keys@,
                f.code(),
                befores,
                afters,
            )
            &&& match last_error(kind, befores) {
                Some(error) => result == Err::<(), TestkitError>(error),
                None => {
                    &&& f.code().ensures((), ())
                    &&& goes_through(keys@.len(), kind, afters)
                    &&& match last_error(kind, afters) {
                        Some(error) => result == Err::<(), TestkitError>(error),
                        None => reports(
                            result,
                            bump_all_failure(kind, labelled(kind, keys@, befores, afters)),
                        ),
                    }
                },
            }
        };
    let steps = bulk_steps(*contract, kind, keys@, f.code(), befores, afters);
    since_is_what_was_added(pre, post, steps);
    let first = readings_steps(*contract, kind, keys@, befores);
    let last = readings_steps(*contract, kind, keys@, afters);
    let entries = labelled(kind, keys@, befores, afters);
    let n = first.len() as int;
    stale_lines_are_the_text(entries);
    readings_read_in_turn(*contract, kind, keys@, befores);
    if last_error(kind, befores) is Some {
        readings_tell_the_ttls(worlds, *contract, kind, keys@, befores);
        assert(befores[befores.len() - 1].outcome(kind) is Err);
        assert(worlds[0].ttl(place(*contract, kind, keys@[befores.len() - 1].0)) is None);
    } else {
        history_splits(worlds, first.push(run_step(f.code())), last);
        assert(first.push(run_step(f.code())) =~= first + seq![run_step(f.code())]);
        history_splits(worlds.take(n + 2), first, seq![run_step(f.code())]);
        let earlier = worlds.take(n + 2).take(n + 1);
        let later = worlds.skip(n + 1);
        let met = worlds[n];
        let left = worlds[n + 1];
        assert(earlier.last() == met && earlier[0] == worlds[0] && later[0] == left);
        readings_tell_the_ttls(earlier, *contract, kind, keys@, befores);
        assert forall|i: int| 0 <= i < keys@.len() implies worlds[0].ttl(
            place(*contract, kind, (#[trigger] keys@[i]).0),
        ) == Some(befores[i].outcome(kind)->Ok_0) by {
            assert(befores[i].outcome(kind) is Ok);
        }
        assert(steps[n] == run_step(f.code()));
        if !instance_expired(left, *contract, kind, keys@) {
            readings_tell_the_ttls(later, *contract, kind, keys@, afters);
            if last_error(kind, afters) is Some {
                let k = afters.len() - 1;
                assert(afters[k].outcome(kind) is Err);
                assert(left.ttl(place(*contract, kind, keys@[k].0)) is None);
            } else {
                assert forall|i: int| 0 <= i < keys@.len() implies left.ttl(
                    place(*contract, kind, (#[trigger] keys@[i]).0),
                ) == Some(afters[i].outcome(kind)->Ok_0) by {
                    assert(afters[i].outcome(kind) is Ok);
                }
                assert forall|i: int| 0 <= i < keys@.len() implies #[trigger] entries[i]
                    == ttls_in(*contract, kind, keys@, met, left)[i] by {
                    assert(worlds[0].ttl(place(*contract, kind, keys@[i].0)) == met.ttl(
                        place(*contract, kind, keys@[i].0),
                    ));
                    assert(left.ttl(place(*contract, kind, keys@[i].0)) is Some);
                }
                assert(entries =~= ttls_in(*contract, kind, keys@, met, left));
                if result is Ok {
                    assert forall|i: int| 0 <= i < keys@.len() implies left.ttl(
                        place(*contract, kind, (#[trigger] keys@[i]).0),
                    )->Some_0 > met.ttl(place(*contract, kind, keys@[i].0))->Some_0 by {
                        assert(entries[i].bumped());
                    }
                } else {
                    let i = choose|i: int|
                        0 <= i < entries.len() && !(#[trigger] entries[i]).bumped();
                    assert(!(left.ttl(place(*contract, kind, keys@[i].0))->Some_0 > met.ttl(
                        place(*contract, kind, keys@[i].0),
                    )->Some_0));
                }
            }
        }
    }
}

} // verus!
