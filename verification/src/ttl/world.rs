//! A model of what a host holds, and of how it answers the steps of a record.
//!
//! The laws that speak of ledgers and lives rather than of replies are stated
//! over this model: they hold on any host that answers as it says. It is the
//! model of a host that stores all of its entries, as a host does that was not
//! made from a snapshot, and whose budget is not spent.

use crate::sdk::{Durability, LedgerState, Step};
use crate::ttl::snapshot::StorageKind;
use soroban_sdk::{Address, Val};
use vstd::prelude::*;

verus! {

/// Where an entry stands: a contract's data entry under a key, or its instance
/// entry where there is no key.
pub struct Place {
    /// The contract that the entry belongs to.
    pub contract: Address,
    /// What becomes of the entry when it expires.
    pub durability: Durability,
    /// The key of a data entry.
    pub key: Option<Val>,
}

/// Where `contract`'s entry of the given kind under `key` stands.
pub open spec fn place(contract: Address, kind: StorageKind, key: Val) -> Place {
    match kind {
        StorageKind::Temporary => Place {
            contract,
            durability: Durability::Temporary,
            key: Some(key),
        },
        StorageKind::Persistent => Place {
            contract,
            durability: Durability::Persistent,
            key: Some(key),
        },
        StorageKind::Instance => Place { contract, durability: Durability::Persistent, key: None },
    }
}

/// What a host holds, as far as TTLs go.
pub struct World {
    /// The sequence number of the current ledger.
    pub sequence: u32,
    /// The most ledgers that an entry may live for, counting the current one.
    pub max_entry_ttl: u32,
    /// The last ledger that each entry lives in.
    pub lives: Map<Place, u32>,
}

impl World {
    /// The TTL of the entry at `at`, where it is alive.
    pub open spec fn ttl(self, at: Place) -> Option<u32> {
        if self.lives.contains_key(at) && self.lives[at] >= self.sequence {
            Some((self.lives[at] - self.sequence) as u32)
        } else {
            None
        }
    }

    /// Whether there is an entry at `at` whose last ledger has passed.
    pub open spec fn expired(self, at: Place) -> bool {
        self.lives.contains_key(at) && self.lives[at] < self.sequence
    }

    /// Whether all entries keep to the most that they may live for.
    pub open spec fn keeps_to_max_ttl(self) -> bool {
        forall|at: Place|
            #[trigger] self.lives.contains_key(at) ==> if self.max_entry_ttl == 0 {
                self.lives[at] <= self.sequence
            } else {
                self.lives[at] <= self.sequence + self.max_entry_ttl - 1
            }
    }

    /// Whether `other` is at the same ledger, with the same TTLs.
    pub open spec fn same_ttls(self, other: World) -> bool {
        &&& self.sequence == other.sequence
        &&& self.max_entry_ttl == other.max_entry_ttl
        &&& forall|at: Place| #[trigger] self.ttl(at) == other.ttl(at)
    }

    /// Whether a host that holds this may answer the step as recorded, and hold
    /// `next` afterward. An entry that has expired is gone when the host is asked
    /// for it, if it is temporary, and restored for some ledgers, if it is
    /// persistent. Code under test may change everything.
    pub open spec fn leads(self, step: Step, next: World) -> bool {
        match step {
            Step::Budget => next == self,
            Step::Stored { contract, durability, key, live_until } => {
                let at = Place { contract, durability, key: Some(key) };
                &&& next == self
                &&& live_until == if self.lives.contains_key(at) {
                    Some(self.lives[at])
                } else {
                    None
                }
            },
            Step::Entry { contract, durability, key, live_until } => {
                let at = Place { contract, durability, key };
                if !self.expired(at) {
                    &&& next == self
                    &&& live_until == if self.lives.contains_key(at) {
                        Some(self.lives[at])
                    } else {
                        None
                    }
                } else if durability is Temporary {
                    &&& next == (World { lives: self.lives.remove(at), ..self })
                    &&& live_until is None
                } else {
                    &&& live_until matches Some(restored) && restored >= self.sequence && next == (
                    World { lives: self.lives.insert(at, restored), ..self })
                }
            },
            Step::Ledger { state } => {
                &&& next == self
                &&& state == Some(
                    LedgerState { sequence: self.sequence, max_entry_ttl: self.max_entry_ttl },
                )
            },
            Step::Sequence { sequence, done } => if done {
                next == (World { sequence, ..self })
            } else {
                next == self
            },
            Step::Run { .. } => true,
        }
    }
}

/// Whether a host that held one after the other of `worlds` may have answered
/// the steps as recorded.
pub open spec fn history(worlds: Seq<World>, steps: Seq<Step>) -> bool {
    &&& worlds.len() == steps.len() + 1
    &&& forall|i: int|
        0 <= i < steps.len() ==> worlds[i].leads(#[trigger] steps[i], worlds[i + 1])
}

/// A history of steps and more steps is one of the former and one of the latter.
pub(crate) proof fn history_splits(worlds: Seq<World>, first: Seq<Step>, rest: Seq<Step>)
    requires
        history(worlds, first + rest),
    ensures
        history(worlds.take(first.len() + 1int), first),
        history(worlds.skip(first.len() as int), rest),
{
    let steps = first + rest;
    assert forall|i: int| 0 <= i < first.len() implies worlds.take(first.len() + 1int)[i].leads(
        #[trigger] first[i],
        worlds.take(first.len() + 1int)[i + 1],
    ) by {
        assert(steps[i] == first[i]);
    }
    assert forall|i: int| 0 <= i < rest.len() implies worlds.skip(first.len() as int)[i].leads(
        #[trigger] rest[i],
        worlds.skip(first.len() as int)[i + 1],
    ) by {
        assert(steps[first.len() + i] == rest[i]);
    }
}

} // verus!
