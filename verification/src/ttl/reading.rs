//! How a TTL is read: the last ledger that an entry lives in, less the current
//! one.
//!
//! A host restores an expired persistent entry when it is asked for it. So a
//! persistent entry is first looked up as the host stores it, and the host is
//! asked for it only where it stores none: an entry that the host has once taken
//! over is not restored by reading its TTL. There is nothing to look up for the
//! other kinds: an expired temporary entry is gone, and a contract whose instance
//! has expired is restored when it is used.

use crate::error::TestkitError;
use crate::sdk::{Durability, LedgerState, Step, TestEnv};
use crate::ttl::snapshot::StorageKind;
use soroban_sdk::{Address, Val};
use vstd::prelude::*;

verus! {

/// The TTL at ledger `sequence` of an entry that lives until ledger
/// `live_until`: the ledgers left, without the current one. An entry whose last
/// ledger has passed has none.
pub open spec fn ttl_at(live_until: u32, sequence: u32) -> Option<u32> {
    if live_until >= sequence {
        Some((live_until - sequence) as u32)
    } else {
        None
    }
}

/// The step of asking the host for the last ledger that `contract`'s entry of the
/// given kind under `key` lives in. The key does not matter for the instance
/// kind.
pub open spec fn entry_step(
    contract: Address,
    kind: StorageKind,
    key: Val,
    live_until: Option<u32>,
) -> Step {
    match kind {
        StorageKind::Temporary => Step::Entry {
            contract,
            durability: Durability::Temporary,
            key: Some(key),
            live_until,
        },
        StorageKind::Persistent => Step::Entry {
            contract,
            durability: Durability::Persistent,
            key: Some(key),
            live_until,
        },
        StorageKind::Instance => Step::Entry {
            contract,
            durability: Durability::Persistent,
            key: None,
            live_until,
        },
    }
}

/// The step of looking up the last ledger that `contract`'s persistent entry
/// under `key` lives in, as the host stores it.
pub open spec fn stored_step(contract: Address, key: Val, live_until: Option<u32>) -> Step {
    Step::Stored { contract, durability: Durability::Persistent, key, live_until }
}

/// What was read to learn an entry's TTL.
#[derive(Debug, Clone, Copy, PartialEq, Eq)]
pub struct Reading {
    /// The last ledger that a persistent entry lives in, where the host stores
    /// the entry.
    pub stored: Option<u32>,
    /// The last ledger that the entry lives in, where the host was asked for it
    /// and has one.
    pub fetched: Option<u32>,
    /// The ledger information, where there is an entry and it could be read.
    pub state: Option<LedgerState>,
}

impl Reading {
    /// The last ledger that an entry of the given kind lives in, where there is
    /// an entry.
    pub open spec fn life(self, kind: StorageKind) -> Option<u32> {
        if kind is Persistent && self.stored is Some {
            self.stored
        } else {
            self.fetched
        }
    }

    /// The steps by which the last ledger of the entry's life is found.
    pub open spec fn search(self, contract: Address, kind: StorageKind, key: Val) -> Seq<Step> {
        if !(kind is Persistent) {
            seq![Step::Budget, entry_step(contract, kind, key, self.fetched)]
        } else if self.stored is Some {
            seq![Step::Budget, stored_step(contract, key, self.stored)]
        } else {
            seq![
                Step::Budget,
                stored_step(contract, key, self.stored),
                entry_step(contract, kind, key, self.fetched),
            ]
        }
    }

    /// The steps that the reading takes: the ledger information is read only
    /// where there is an entry.
    pub open spec fn steps(self, contract: Address, kind: StorageKind, key: Val) -> Seq<Step> {
        if self.life(kind) is None {
            self.search(contract, kind, key)
        } else {
            self.search(contract, kind, key).push(Step::Ledger { state: self.state })
        }
    }

    /// The TTL that the reading tells of an entry of the given kind, or why it
    /// tells none.
    pub open spec fn outcome(self, kind: StorageKind) -> Result<u32, TestkitError> {
        match self.life(kind) {
            None => Err(TestkitError::EntryUnavailable),
            Some(live_until) => match self.state {
                None => Err(TestkitError::LedgerUnavailable),
                Some(at) => match ttl_at(live_until, at.sequence) {
                    None => Err(TestkitError::EntryUnavailable),
                    Some(ttl) => Ok(ttl),
                },
            },
        }
    }

    /// The last ledger that an entry of the given kind lives in, where there is
    /// an entry.
    pub fn live_until(&self, kind: StorageKind) -> (live_until: Option<u32>)
        ensures
            live_until == self.life(kind),
    {
        match (kind, self.stored) {
            (StorageKind::Persistent, Some(live_until)) => Some(live_until),
            _ => self.fetched,
        }
    }

    /// The TTL that the reading tells of an entry of the given kind, or why it
    /// tells none.
    pub fn ttl(&self, kind: StorageKind) -> (result: Result<u32, TestkitError>)
        ensures
            result == self.outcome(kind),
    {
        match self.live_until(kind) {
            None => Err(TestkitError::EntryUnavailable),
            Some(live_until) => match self.state {
                None => Err(TestkitError::LedgerUnavailable),
                Some(at) => match live_until.checked_sub(at.sequence) {
                    None => Err(TestkitError::EntryUnavailable),
                    Some(ttl) => Ok(ttl),
                },
            },
        }
    }
}

/// The steps of the readings of the keys' entries, one after the other.
pub open spec fn readings_steps(
    contract: Address,
    kind: StorageKind,
    keys: Seq<(Val, &str)>,
    readings: Seq<Reading>,
) -> Seq<Step>
    decreases readings.len(),
{
    if readings.len() == 0 {
        Seq::empty()
    } else {
        readings_steps(contract, kind, keys, readings.drop_last()) + readings.last().steps(
            contract,
            kind,
            keys[readings.len() - 1].0,
        )
    }
}

/// Why the last of the readings tells no TTL, if it tells none.
pub open spec fn last_error(kind: StorageKind, readings: Seq<Reading>) -> Option<TestkitError> {
    if readings.len() == 0 {
        None
    } else {
        match readings.last().outcome(kind) {
            Ok(_) => None,
            Err(error) => Some(error),
        }
    }
}

/// The readings go through `count` entries in order, up to the first that tells
/// no TTL: all that come before the last one tell theirs, and where the last one
/// does too, there is one for every entry.
pub open spec fn goes_through(count: nat, kind: StorageKind, readings: Seq<Reading>) -> bool {
    &&& readings.len() <= count
    &&& forall|i: int|
        0 <= i < readings.len() - 1 ==> (#[trigger] readings[i]).outcome(kind) is Ok
    &&& last_error(kind, readings) is None ==> readings.len() == count
}

impl TestEnv {
    /// Reads a TTL.
    pub(crate) fn ttl_of_val(&mut self, contract: &Address, kind: StorageKind, key: &Val) -> (
    reading: Reading)
        ensures
            final(self).handle() == old(self).handle(),
            final(self).steps() == old(self).steps() + reading.steps(*contract, kind, *key),
    {
        let ghost start = self.steps();
        self.reset_budget();
        let mut stored: Option<u32> = None;
        let mut fetched: Option<u32> = None;
        match kind {
            StorageKind::Temporary => {
                fetched = self.live_until(contract, Durability::Temporary, Some(*key));
            },
            StorageKind::Persistent => {
                stored = self.stored_live_until(contract, Durability::Persistent, key);
                if stored.is_none() {
                    fetched = self.live_until(contract, Durability::Persistent, Some(*key));
                }
            },
            StorageKind::Instance => {
                fetched = self.live_until(contract, Durability::Persistent, None);
            },
        }
        let mut reading = Reading { stored, fetched, state: None };
        assert(self.steps() =~= start + reading.search(*contract, kind, *key));
        if reading.live_until(kind).is_some() {
            reading.state = self.ledger();
        }
        assert(self.steps() =~= start + reading.steps(*contract, kind, *key));
        reading
    }

    /// Reads the TTLs of the keys' entries, up to the first that cannot be read.
    pub(crate) fn ttls_of_vals(
        &mut self,
        contract: &Address,
        kind: StorageKind,
        keys: &[(Val, &str)],
    ) -> (readings: Vec<Reading>)
        ensures
            goes_through(keys@.len(), kind, readings@),
            final(self).handle() == old(self).handle(),
            final(self).steps() == old(self).steps() + readings_steps(
                *contract,
                kind,
                keys@,
                readings@,
            ),
    {
        let mut readings: Vec<Reading> = Vec::new();
        let ghost start = self.steps();
        assert(start =~= start + readings_steps(*contract, kind, keys@, readings@));
        let mut i: usize = 0;
        while i < keys.len()
            invariant
                i <= keys@.len(),
                readings@.len() == i,
                forall|j: int| 0 <= j < i ==> (#[trigger] readings@[j]).outcome(kind) is Ok,
                self.handle() == old(self).handle(),
                self.steps() == start + readings_steps(*contract, kind, keys@, readings@),
                start == old(self).steps(),
            decreases keys@.len() - i,
        {
            let reading: Reading = self.ttl_of_val(contract, kind, &keys[i].0);
            let ghost seen = readings@;
            readings.push(reading);
            proof {
                assert(readings@.drop_last() =~= seen);
                assert(self.steps() =~= start + readings_steps(
                    *contract,
                    kind,
                    keys@,
                    readings@,
                ));
            }
            if reading.ttl(kind).is_err() {
                return readings;
            }
            i += 1;
        }
        readings
    }
}

} // verus!
