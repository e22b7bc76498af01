//! The environment that readings and assertions work on, and how its ledger is
//! advanced.

use crate::error::TestkitError;
pub use crate::sdk::TestEnv;
use crate::sdk::{LedgerState, Step};
use vstd::prelude::*;

verus! {

impl LedgerState {
    /// The sequence number `ledgers` ledgers later, where there is one.
    pub open spec fn sequence_after(self, ledgers: u32) -> Option<u32> {
        if self.sequence + ledgers <= u32::MAX {
            Some((self.sequence + ledgers) as u32)
        } else {
            None
        }
    }

    /// The sequence number `ledgers` ledgers later, where there is one.
    pub fn advanced(&self, ledgers: u32) -> (sequence: Option<u32>)
        ensures
            sequence == self.sequence_after(ledgers),
    {
        self.sequence.checked_add(ledgers)
    }
}

/// The steps of an advance by `ledgers` ledgers, where the ledger information
/// was read as `state` and setting the sequence number was `done` or refused:
/// the sequence number is set to the one that many ledgers later, where the
/// information is there and there is such a sequence number.
pub open spec fn advance_steps(ledgers: u32, state: Option<LedgerState>, done: bool) -> Seq<Step> {
    match state {
        None => seq![Step::Ledger { state }],
        Some(at) => match at.sequence_after(ledgers) {
            None => seq![Step::Ledger { state }],
            Some(sequence) => seq![Step::Ledger { state }, Step::Sequence { sequence, done }],
        },
    }
}

/// How that advance ends.
pub open spec fn advance_result(ledgers: u32, state: Option<LedgerState>, done: bool) -> Result<
    (),
    TestkitError,
> {
    match state {
        None => Err(TestkitError::LedgerUnavailable),
        Some(at) => if at.sequence_after(ledgers) is None {
            Err(TestkitError::SequenceOverflow)
        } else if done {
            Ok(())
        } else {
            Err(TestkitError::LedgerUnavailable)
        },
    }
}

impl TestEnv {
    /// Advances the ledger where the ledger information has just been read.
    pub(crate) fn advance_from(&mut self, state: Option<LedgerState>, ledgers: u32) -> (result:
        Result<(), TestkitError>)
        requires
            old(self).steps().len() > 0,
            old(self).steps().last() == (Step::Ledger { state }),
        ensures
            final(self).handle() == old(self).handle(),
            exists|done: bool|
                {
                    &&& final(self).steps() == old(self).steps().drop_last()
                        + #[trigger] advance_steps(ledgers, state, done)
                    &&& result == advance_result(ledgers, state, done)
                },
    {
        let ghost start = self.steps().drop_last();
        assert(self.steps() =~= start + seq![Step::Ledger { state }]);
        let at: LedgerState = match state {
            None => {
                assert(self.steps() == start + advance_steps(ledgers, state, false));
                return Err(TestkitError::LedgerUnavailable);
            },
            Some(at) => at,
        };
        let sequence: u32 = match at.advanced(ledgers) {
            None => {
                assert(self.steps() == start + advance_steps(ledgers, state, false));
                return Err(TestkitError::SequenceOverflow);
            },
            Some(sequence) => sequence,
        };
        let done: bool = self.set_sequence(sequence);
        assert(self.steps() =~= start + advance_steps(ledgers, state, done));
        if done {
            Ok(())
        } else {
            Err(TestkitError::LedgerUnavailable)
        }
    }

    /// Advances the ledger by the given number of ledgers. Only the sequence
    /// number changes.
    pub fn advance_ledgers(&mut self, ledgers: u32) -> (result: Result<(), TestkitError>)
        ensures
            final(self).handle() == old(self).handle(),
            exists|state: Option<LedgerState>, done: bool|
                {
                    &&& final(self).steps() == old(self).steps() + #[trigger] advance_steps(
                        ledgers,
                        state,
                        done,
                    )
                    &&& result == advance_result(ledgers, state, done)
                },
    {
        let ghost start = self.steps();
        let state: Option<LedgerState> = self.ledger();
        assert(self.steps().drop_last() =~= start);
        self.advance_from(state, ledgers)
    }
}

} // verus!
