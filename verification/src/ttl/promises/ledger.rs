//! What `advance_ledgers` and `expire` promise.

use crate::error::TestkitError;
use crate::sdk::{Step, TestEnv};
use crate::ttl::promises::since_is_what_was_added;
use crate::ttl::record::{continues, since};
use crate::ttl::snapshot::StorageKind;
use crate::ttl::world::{history, Place, World};
use vstd::prelude::*;

verus! {

/// One more than the most ledgers that an entry may live for, as far as there are
/// that many.
pub open spec fn past_every_life(max_entry_ttl: u32) -> int {
    if max_entry_ttl < u32::MAX {
        max_entry_ttl + 1
    } else {
        max_entry_ttl as int
    }
}

/// An advance reads the ledger information once, and sets the sequence number to
/// the one that many ledgers later, where there is one. It fails for want of
/// sequence numbers exactly where there is none, and for want of the ledger
/// information exactly where the host refused to give or to change it.
pub proof fn advance_sets_the_later_sequence(
    env: &mut TestEnv,
    ledgers: u32,
    result: Result<(), TestkitError>,
)
    requires
        call_ensures(TestEnv::advance_ledgers, (env, ledgers), result),
    ensures
        continues(*old(env), *final(env)),
        ({
            let steps = since(*old(env), *final(env));
            &&& 1 <= steps.len() <= 2
            &&& steps[0] matches Step::Ledger { state } && match state {
                None => steps.len() == 1 && result == Err::<(), TestkitError>(
                    TestkitError::LedgerUnavailable,
                ),
                Some(now) => if now.sequence + ledgers > u32::MAX {
                    steps.len() == 1 && result == Err::<(), TestkitError>(
                        TestkitError::SequenceOverflow,
                    )
                } else {
                    steps.len() == 2 && (steps[1] matches Step::Sequence { sequence, done }
                        && sequence == now.sequence + ledgers && if done {
                        result is Ok
                    } else {
                        result == Err::<(), TestkitError>(TestkitError::LedgerUnavailable)
                    })
                },
            }
        }),
{
    let pre = *old(env);
    let post = *final(env);
    let steps = choose|steps: Seq<Step>| post.steps() == #[trigger] (pre.steps() + steps);
    since_is_what_was_added(pre, post, steps);
}

/// On a host an advance that succeeds leaves the ledger that many ledgers on, and
/// one that fails leaves it where it was. Nothing else changes, and it succeeds
/// unless there is no such ledger or the host refuses.
pub proof fn advance_moves_the_ledger(
    env: &mut TestEnv,
    ledgers: u32,
    result: Result<(), TestkitError>,
    worlds: Seq<World>,
)
    requires
        call_ensures(TestEnv::advance_ledgers, (env, ledgers), result),
        history(worlds, since(*old(env), *final(env))),
    ensures
        worlds.last().lives == worlds[0].lives,
        worlds.last().max_entry_ttl == worlds[0].max_entry_ttl,
        worlds.last().sequence == worlds[0].sequence + if result is Ok {
            ledgers as int
        } else {
            0
        },
        worlds[0].sequence + ledgers <= u32::MAX ==> {
            ||| result is Ok
            ||| since(*old(env), *final(env)).last() == (Step::Sequence {
                sequence: (worlds[0].sequence + ledgers) as u32,
                done: false,
            })
        },
        worlds[0].sequence + ledgers > u32::MAX ==> result == Err::<(), TestkitError>(
            TestkitError::SequenceOverflow,
        ),
{
    advance_sets_the_later_sequence(env, ledgers, result);
    let steps = since(*old(env), *final(env));
    assert(worlds[0].leads(steps[0], worlds[1]));
    if steps.len() > 1 {
        assert(worlds[1].leads(steps[1], worlds[2]));
    }
}

/// `expire` reads the ledger information once, and sets the sequence number to
/// one past the most that any entry may live for, counted from the current one.
/// It fails for want of sequence numbers exactly where there is no such one, and
/// for want of the ledger information exactly where the host refused to give or
/// to change it. The kind does not matter.
pub proof fn expire_sets_the_sequence_past_every_life(
    env: &mut TestEnv,
    kind: StorageKind,
    result: Result<(), TestkitError>,
)
    requires
        call_ensures(TestEnv::expire, (env, kind), result),
    ensures
        continues(*old(env), *final(env)),
        ({
            let steps = since(*old(env), *final(env));
            &&& 1 <= steps.len() <= 2
            &&& steps[0] matches Step::Ledger { state } && match state {
                None => steps.len() == 1 && result == Err::<(), TestkitError>(
                    TestkitError::LedgerUnavailable,
                ),
                Some(now) => if now.sequence + past_every_life(now.max_entry_ttl) > u32::MAX {
                    steps.len() == 1 && result == Err::<(), TestkitError>(
                        TestkitError::SequenceOverflow,
                    )
                } else {
                    steps.len() == 2 && (steps[1] matches Step::Sequence { sequence, done }
                        && sequence == now.sequence + past_every_life(now.max_entry_ttl) && if done {
                        result is Ok
                    } else {
                        result == Err::<(), TestkitError>(TestkitError::LedgerUnavailable)
                    })
                },
            }
        }),
{
    let pre = *old(env);
    let post = *final(env);
    let steps = choose|steps: Seq<Step>| post.steps() == #[trigger] (pre.steps() + steps);
    since_is_what_was_added(pre, post, steps);
}

/// On a host whose entries keep to the most that they may live for, `expire`
/// leaves no entry alive, at one ledger past that most and with every life
/// unchanged. It succeeds wherever there is such a ledger, unless the host
/// refuses to go to it; where it fails, the ledger is left where it was.
pub proof fn expire_expires_every_entry(
    env: &mut TestEnv,
    kind: StorageKind,
    result: Result<(), TestkitError>,
    worlds: Seq<World>,
)
    requires
        call_ensures(TestEnv::expire, (env, kind), result),
        history(worlds, since(*old(env), *final(env))),
    ensures
        worlds.last().lives == worlds[0].lives,
        result is Ok ==> worlds.last().sequence == worlds[0].sequence + past_every_life(
            worlds[0].max_entry_ttl,
        ),
        result is Ok && worlds[0].keeps_to_max_ttl() ==> forall|at: Place|
            (#[trigger] worlds.last().ttl(at)) is None,
        result is Err ==> worlds.last() == worlds[0],
        worlds[0].sequence + worlds[0].max_entry_ttl + 1 <= u32::MAX ==> {
            ||| result is Ok
            ||| since(*old(env), *final(env)).last() == (Step::Sequence {
                sequence: (worlds[0].sequence + worlds[0].max_entry_ttl + 1) as u32,
                done: false,
            })
        },
        result == Err::<(), TestkitError>(TestkitError::SequenceOverflow) ==> worlds[0].sequence
            + worlds[0].max_entry_ttl + 1 > u32::MAX,
{
    expire_sets_the_sequence_past_every_life(env, kind, result);
    let steps = since(*old(env), *final(env));
    assert(worlds[0].leads(steps[0], worlds[1]));
    if steps.len() > 1 {
        assert(worlds[1].leads(steps[1], worlds[2]));
    }
}

} // verus!
