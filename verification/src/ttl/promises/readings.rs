//! What the operations promise that read one TTL: `ttl_of`, `ttl_snapshot` and
//! `assert_ttl_at_least`.

use crate::error::TestkitError;
use crate::sdk::{Step, TestEnv};
use crate::text::natural_text;
use crate::ttl::laws::reading_tells_and_leaves_the_ttl;
use crate::ttl::promises::{reading_reads, since_is_what_was_added};
use crate::ttl::reading::Reading;
use crate::ttl::record::{continues, reads, says, since, told};
use crate::ttl::snapshot::{StorageKind, TtlSnapshot};
use crate::ttl::world::{history, place, World};
use soroban_sdk::{Address, Val};
use vstd::prelude::*;

verus! {

/// `ttl_of` reads the TTL of the entry asked for and does nothing else, and
/// returns what the reading tells.
pub proof fn ttl_of_returns_what_was_read(
    env: &mut TestEnv,
    contract: &Address,
    kind: StorageKind,
    key: &Val,
    result: Result<u32, TestkitError>,
)
    requires
        call_ensures(TestEnv::ttl_of, (env, contract, kind, key), result),
    ensures
        continues(*old(env), *final(env)),
        reads(since(*old(env), *final(env)), kind, place(*contract, kind, *key)),
        result == told(since(*old(env), *final(env))),
{
    let pre = *old(env);
    let post = *final(env);
    let reading = choose|reading: Reading|
        {
            &&& post.steps() == pre.steps() + #[trigger] reading.steps(*contract, kind, *key)
            &&& result == reading.outcome(kind)
        };
    since_is_what_was_added(pre, post, reading.steps(*contract, kind, *key));
    reading_reads(*contract, kind, *key, reading);
}

/// On a host `ttl_of` returns the TTL of the entry asked for where it is alive,
/// and fails where it is not; and it leaves the ledger and every TTL as they
/// were. An expired instance is left out: the host restores it.
pub proof fn ttl_of_returns_the_ttl(
    env: &mut TestEnv,
    contract: &Address,
    kind: StorageKind,
    key: &Val,
    result: Result<u32, TestkitError>,
    worlds: Seq<World>,
)
    requires
        call_ensures(TestEnv::ttl_of, (env, contract, kind, key), result),
        history(worlds, since(*old(env), *final(env))),
        kind is Instance ==> !worlds[0].expired(place(*contract, kind, *key)),
    ensures
        match worlds[0].ttl(place(*contract, kind, *key)) {
            Some(ttl) => result == Ok::<u32, TestkitError>(ttl),
            None => result == Err::<u32, TestkitError>(TestkitError::EntryUnavailable),
        },
        worlds.last().same_ttls(worlds[0]),
{
    let pre = *old(env);
    let post = *final(env);
    let reading = choose|reading: Reading|
        {
            &&& post.steps() == pre.steps() + #[trigger] reading.steps(*contract, kind, *key)
            &&& result == reading.outcome(kind)
        };
    since_is_what_was_added(pre, post, reading.steps(*contract, kind, *key));
    reading_tells_and_leaves_the_ttl(worlds, *contract, kind, *key, reading);
}

/// `ttl_snapshot` reads the TTL of the entry asked for and does nothing else, and
/// what it returns gives back the kind asked for and the TTL that was read.
pub proof fn snapshot_holds_what_was_read(
    env: &mut TestEnv,
    contract: &Address,
    kind: StorageKind,
    key: &Val,
    result: Result<TtlSnapshot, TestkitError>,
)
    requires
        call_ensures(TestEnv::ttl_snapshot, (env, contract, kind, key), result),
    ensures
        continues(*old(env), *final(env)),
        reads(since(*old(env), *final(env)), kind, place(*contract, kind, *key)),
        match told(since(*old(env), *final(env))) {
            Ok(ttl) => result matches Ok(snapshot) && snapshot.ttl_held() == ttl
                && snapshot.kind_held() == kind,
            Err(error) => result == Err::<TtlSnapshot, TestkitError>(error),
        },
{
    let pre = *old(env);
    let post = *final(env);
    let reading = choose|reading: Reading|
        {
            &&& post.steps() == pre.steps() + #[trigger] reading.steps(*contract, kind, *key)
            &&& match reading.outcome(kind) {
                Err(error) => result == Err::<TtlSnapshot, TestkitError>(error),
                Ok(ttl) => result matches Ok(snapshot) && snapshot.kind_held() == kind
                    && snapshot.ttl_held() == ttl,
            }
        };
    since_is_what_was_added(pre, post, reading.steps(*contract, kind, *key));
    reading_reads(*contract, kind, *key, reading);
}

/// On a host a snapshot of an entry that is alive holds the kind asked for and
/// the entry's TTL, as the snapshot's own methods give them back; there is none
/// of an entry that is not; and the ledger and every TTL are left as they were.
/// An expired instance is left out: the host restores it.
pub proof fn snapshot_holds_the_ttl(
    env: &mut TestEnv,
    contract: &Address,
    kind: StorageKind,
    key: &Val,
    result: Result<TtlSnapshot, TestkitError>,
    worlds: Seq<World>,
)
    requires
        call_ensures(TestEnv::ttl_snapshot, (env, contract, kind, key), result),
        history(worlds, since(*old(env), *final(env))),
        kind is Instance ==> !worlds[0].expired(place(*contract, kind, *key)),
    ensures
        match worlds[0].ttl(place(*contract, kind, *key)) {
            Some(ttl) => result matches Ok(snapshot) && snapshot.ttl_held() == ttl
                && snapshot.kind_held() == kind && (forall|given: u32|
                call_ensures(TtlSnapshot::ttl, (&snapshot,), given) ==> given == ttl) && (forall|
                given: StorageKind,
            |
                call_ensures(TtlSnapshot::kind, (&snapshot,), given) ==> given == kind),
            None => result == Err::<TtlSnapshot, TestkitError>(TestkitError::EntryUnavailable),
        },
        worlds.last().same_ttls(worlds[0]),
{
    let pre = *old(env);
    let post = *final(env);
    let reading = choose|reading: Reading|
        {
            &&& post.steps() == pre.steps() + #[trigger] reading.steps(*contract, kind, *key)
            &&& match reading.outcome(kind) {
                Err(error) => result == Err::<TtlSnapshot, TestkitError>(error),
                Ok(ttl) => result matches Ok(snapshot) && snapshot.kind_held() == kind
                    && snapshot.ttl_held() == ttl,
            }
        };
    since_is_what_was_added(pre, post, reading.steps(*contract, kind, *key));
    reading_tells_and_leaves_the_ttl(worlds, *contract, kind, *key, reading);
}

/// Two snapshots of an entry that nothing touches, with an advance in between,
/// differ by the ledgers advanced, negated, as far as the entry lives.
pub proof fn snapshots_differ_by_the_ledgers_advanced(
    env: &mut TestEnv,
    later: &mut TestEnv,
    contract: &Address,
    kind: StorageKind,
    key: &Val,
    before: TtlSnapshot,
    after: TtlSnapshot,
    change: i64,
    worlds: Seq<World>,
    later_worlds: Seq<World>,
    ledgers: u32,
)
    requires
        call_ensures(TestEnv::ttl_snapshot, (env, contract, kind, key), Ok(before)),
        call_ensures(TestEnv::ttl_snapshot, (later, contract, kind, key), Ok(after)),
        call_ensures(TtlSnapshot::diff, (&before, &after), change),
        history(worlds, since(*old(env), *final(env))),
        history(later_worlds, since(*old(later), *final(later))),
        !worlds[0].expired(place(*contract, kind, *key)),
        !later_worlds[0].expired(place(*contract, kind, *key)),
        later_worlds[0].lives == worlds[0].lives,
        later_worlds[0].sequence == worlds[0].sequence + ledgers,
    ensures
        change == -ledgers,
{
    snapshot_holds_the_ttl(env, contract, kind, key, Ok(before), worlds);
    snapshot_holds_the_ttl(later, contract, kind, key, Ok(after), later_worlds);
}

/// `assert_ttl_at_least` reads the TTL of the entry asked for and does nothing
/// else. It holds exactly where the TTL is the minimum or more, says both where
/// it is less, and fails as the reading does where there is no TTL.
pub proof fn at_least_judges_what_was_read(
    env: &mut TestEnv,
    contract: &Address,
    kind: StorageKind,
    key: &Val,
    min_ttl: u32,
    result: Result<(), TestkitError>,
)
    requires
        call_ensures(TestEnv::assert_ttl_at_least, (env, contract, kind, key, min_ttl), result),
    ensures
        continues(*old(env), *final(env)),
        reads(since(*old(env), *final(env)), kind, place(*contract, kind, *key)),
        match told(since(*old(env), *final(env))) {
            Err(error) => result == Err::<(), TestkitError>(error),
            Ok(ttl) => {
                &&& result is Ok <==> ttl >= min_ttl
                &&& result is Err ==> says(
                    result,
                    "expected the "@ + kind.label() + " TTL to be at least "@ + natural_text(
                        min_ttl as nat,
                    ) + " ledgers, but it is "@ + natural_text(ttl as nat),
                )
            },
        },
{
    let pre = *old(env);
    let post = *final(env);
    let steps = choose|steps: Seq<Step>| post.steps() == #[trigger] (pre.steps() + steps);
    since_is_what_was_added(pre, post, steps);
    assert forall|reading: Reading|
        post.steps() == pre.steps() + #[trigger] reading.steps(*contract, kind, *key) implies reads(
        since(pre, post),
        kind,
        place(*contract, kind, *key),
    ) && told(since(pre, post)) == reading.outcome(kind) by {
        since_is_what_was_added(pre, post, reading.steps(*contract, kind, *key));
        reading_reads(*contract, kind, *key, reading);
    }
}

/// On a host `assert_ttl_at_least` holds of an entry that is alive exactly where
/// its TTL is the minimum or more, and fails as unavailable where the entry is
/// not alive; and the ledger and every TTL are left as they were. An expired
/// instance is left out: the host restores it.
pub proof fn at_least_judges_the_ttl(
    env: &mut TestEnv,
    contract: &Address,
    kind: StorageKind,
    key: &Val,
    min_ttl: u32,
    result: Result<(), TestkitError>,
    worlds: Seq<World>,
)
    requires
        call_ensures(TestEnv::assert_ttl_at_least, (env, contract, kind, key, min_ttl), result),
        history(worlds, since(*old(env), *final(env))),
        kind is Instance ==> !worlds[0].expired(place(*contract, kind, *key)),
    ensures
        match worlds[0].ttl(place(*contract, kind, *key)) {
            Some(ttl) => {
                &&& result is Ok <==> ttl >= min_ttl
                &&& result matches Err(error) ==> error is AssertionFailed
            },
            None => result == Err::<(), TestkitError>(TestkitError::EntryUnavailable),
        },
        worlds.last().same_ttls(worlds[0]),
{
    let pre = *old(env);
    let post = *final(env);
    at_least_judges_what_was_read(env, contract, kind, key, min_ttl, result);
    let reading = choose|reading: Reading|
        post.steps() == pre.steps() + #[trigger] reading.steps(*contract, kind, *key);
    since_is_what_was_added(pre, post, reading.steps(*contract, kind, *key));
    reading_reads(*contract, kind, *key, reading);
    reading_tells_and_leaves_the_ttl(worlds, *contract, kind, *key, reading);
}

} // verus!
