//! Storage kinds and point-in-time TTL readings.

use vstd::prelude::*;

verus! {

/// Which of Soroban's three storage kinds an entry lives in.
#[derive(Debug, Clone, Copy, PartialEq, Eq, Structural)]
pub enum StorageKind {
    /// Cheapest, expires soonest, and once gone is gone: used for data that is
    /// fine to lose, such as rate-limit counters or session state.
    Temporary,
    /// Long-lived, rent-paying storage. Expired entries can be restored; until
    /// then they have no TTL to read.
    Persistent,
    /// The contract's own instance data plus its code. There is exactly one
    /// instance entry per contract, so a key does not matter for this kind.
    Instance,
}

impl StorageKind {
    /// The name of the kind, as it stands in messages.
    pub open spec fn label(self) -> Seq<char> {
        match self {
            StorageKind::Temporary => "Temporary"@,
            StorageKind::Persistent => "Persistent"@,
            StorageKind::Instance => "Instance"@,
        }
    }

    /// The name of the kind, as it stands in messages.
    pub fn name(self) -> (name: &'static str)
        ensures
            name@ == self.label(),
    {
        match self {
            StorageKind::Temporary => "Temporary",
            StorageKind::Persistent => "Persistent",
            StorageKind::Instance => "Instance",
        }
    }
}

/// The signed change from one TTL to a later one.
pub open spec fn ttl_change(before: u32, after: u32) -> int {
    after - before
}

/// A point-in-time reading of one entry's TTL, compared with a later one by
/// [`TtlSnapshot::diff`].
#[derive(Debug, Clone, Copy, PartialEq, Eq, Structural)]
pub struct TtlSnapshot {
    kind: StorageKind,
    ttl: u32,
}

impl TtlSnapshot {
    /// The TTL that the snapshot holds.
    pub closed spec fn ttl_held(self) -> u32 {
        self.ttl
    }

    /// The storage kind that the snapshot holds.
    pub closed spec fn kind_held(self) -> StorageKind {
        self.kind
    }

    /// Records that an entry of the given kind had the given TTL.
    pub fn taken(kind: StorageKind, ttl: u32) -> (snapshot: TtlSnapshot)
        ensures
            snapshot.kind_held() == kind,
            snapshot.ttl_held() == ttl,
    {
        TtlSnapshot { kind, ttl }
    }

    /// The TTL, in ledgers, at the time of the snapshot.
    pub fn ttl(&self) -> (ttl: u32)
        ensures
            ttl == self.ttl_held(),
    {
        self.ttl
    }

    /// The storage kind of the entry that was snapshotted.
    pub fn kind(&self) -> (kind: StorageKind)
        ensures
            kind == self.kind_held(),
    {
        self.kind
    }

    /// The signed change in TTL from this snapshot to `later`: positive if the
    /// TTL grew (an extension), negative if it shrank (ledgers elapsed).
    pub fn diff(&self, later: &TtlSnapshot) -> (change: i64)
        ensures
            change == ttl_change(self.ttl_held(), later.ttl_held()),
    {
        (later.ttl as i64) - (self.ttl as i64)
    }
}

/// A snapshot is determined by its kind and its TTL.
pub proof fn snapshot_determined(a: TtlSnapshot, b: TtlSnapshot)
    ensures
        a == b <==> a.kind_held() == b.kind_held() && a.ttl_held() == b.ttl_held(),
{
}

} // verus!
