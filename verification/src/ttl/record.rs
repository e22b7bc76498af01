//! What a record tells, read off its steps alone.

use crate::error::TestkitError;
use crate::sdk::{Step, TestEnv};
use crate::ttl::snapshot::StorageKind;
use crate::ttl::world::Place;
use vstd::prelude::*;

verus! {

/// What was done between two moments of an environment.
pub open spec fn since(pre: TestEnv, post: TestEnv) -> Seq<Step> {
    post.steps().skip(pre.steps().len() as int)
}

/// Whether `post` is a later moment of `pre`: the same host, with nothing taken
/// out of the record.
pub open spec fn continues(pre: TestEnv, post: TestEnv) -> bool {
    &&& post.handle() == pre.handle()
    &&& pre.steps().is_prefix_of(post.steps())
}

/// Whether nothing in the steps sets the sequence number or runs code.
pub open spec fn only_reads(steps: Seq<Step>) -> bool {
    forall|i: int|
        0 <= i < steps.len() ==> !((#[trigger] steps[i]) is Sequence) && !(steps[i] is Run)
}

/// The last ledger of a life that a step found, if it found one.
pub open spec fn found(step: Step) -> Option<u32> {
    match step {
        Step::Stored { live_until, .. } => live_until,
        Step::Entry { live_until, .. } => live_until,
        _ => None,
    }
}

/// Whether the step looks the entry at `at` up among what the host stores.
pub open spec fn looks_up(step: Step, at: Place) -> bool {
    step matches Step::Stored { contract, durability, key, .. } && at == (Place {
        contract,
        durability,
        key: Some(key),
    })
}

/// Whether the step asks the host for the entry at `at`.
pub open spec fn asks_for(step: Step, at: Place) -> bool {
    step matches Step::Entry { contract, durability, key, .. } && at == (Place {
        contract,
        durability,
        key,
    })
}

/// Whether the steps read the TTL of the entry of the given kind at `at`, and do
/// nothing else: the entry is looked for, a persistent one first among what the
/// host stores, and where it is found, the ledger information is read.
pub open spec fn reads(steps: Seq<Step>, kind: StorageKind, at: Place) -> bool {
    let looks: int = if kind is Persistent && found(steps[1]) is None {
        2
    } else {
        1
    };
    &&& steps.len() > looks
    &&& steps[0] == Step::Budget
    &&& if kind is Persistent {
        looks_up(steps[1], at)
    } else {
        asks_for(steps[1], at)
    }
    &&& looks == 2 ==> asks_for(steps[2], at)
    &&& if found(steps[looks]) is None {
        steps.len() == looks + 1
    } else {
        steps.len() == looks + 2 && steps[looks + 1] is Ledger
    }
}

/// What the reading that the steps end with tells: the ledgers that the life
/// found goes on for behind the current one, or why there are none.
pub open spec fn told(steps: Seq<Step>) -> Result<u32, TestkitError> {
    match steps.last() {
        Step::Ledger { state } => match (state, found(steps[steps.len() - 2])) {
            (None, _) => Err(TestkitError::LedgerUnavailable),
            (Some(now), Some(life)) => if life >= now.sequence {
                Ok((life - now.sequence) as u32)
            } else {
                Err(TestkitError::EntryUnavailable)
            },
            (Some(_), None) => Err(TestkitError::EntryUnavailable),
        },
        _ => Err(TestkitError::EntryUnavailable),
    }
}

/// The parts, one behind the other.
pub open spec fn joined(parts: Seq<Seq<Step>>) -> Seq<Step>
    decreases parts.len(),
{
    if parts.len() == 0 {
        Seq::empty()
    } else {
        joined(parts.drop_last()) + parts.last()
    }
}

/// Whether `result` is a failed assertion with this text.
pub open spec fn says(result: Result<(), TestkitError>, text: Seq<char>) -> bool {
    result matches Err(TestkitError::AssertionFailed(message)) && message@ == text
}

} // verus!
