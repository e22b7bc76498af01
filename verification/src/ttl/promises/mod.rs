//! What the operations promise: what each of them does to a host, and what it
//! returns, in terms of the record of its steps and of what the host holds.
//!
//! Each law speaks of any call of the operation, by what its contract says of
//! `env` before and after the call and of the result.

pub mod bulk;
pub mod ledger;
pub mod measured;
pub mod readings;
pub mod runs;

use crate::sdk::{Step, TestEnv};
use crate::ttl::reading::Reading;
use crate::ttl::record::{only_reads, reads, since, told};
use crate::ttl::snapshot::StorageKind;
use crate::ttl::world::{history, place, World};
use soroban_sdk::{Address, Val};
use vstd::prelude::*;

verus! {

/// The steps of a reading read the entry's TTL, and what they tell is what the
/// reading tells.
pub(crate) proof fn reading_reads(contract: Address, kind: StorageKind, key: Val, reading: Reading)
    ensures
        reads(reading.steps(contract, kind, key), kind, place(contract, kind, key)),
        told(reading.steps(contract, kind, key)) == reading.outcome(kind),
        only_reads(reading.steps(contract, kind, key)),
{
}

/// What is recorded behind a record is what was done since.
pub(crate) proof fn since_is_what_was_added(pre: TestEnv, post: TestEnv, steps: Seq<Step>)
    requires
        post.steps() == pre.steps() + steps,
    ensures
        since(pre, post) == steps,
        pre.steps().is_prefix_of(post.steps()),
{
    assert(since(pre, post) =~= steps);
}

/// A reading of an entry that is alive, or of an instance that has not expired,
/// leaves everything as it was.
pub(crate) proof fn reading_leaves_what_is_alive(
    worlds: Seq<World>,
    contract: Address,
    kind: StorageKind,
    key: Val,
    reading: Reading,
)
    requires
        history(worlds, reading.steps(contract, kind, key)),
    ensures
        !worlds[0].expired(place(contract, kind, key)) ==> worlds.last() == worlds[0],
{
    let steps = reading.steps(contract, kind, key);
    assert(worlds[0].leads(steps[0], worlds[1]));
    assert(worlds[1].leads(steps[1], worlds[2]));
    if steps.len() > 2 {
        assert(worlds[2].leads(steps[2], worlds[3]));
    }
    if steps.len() > 3 {
        assert(worlds[3].leads(steps[3], worlds[4]));
    }
}

} // verus!
