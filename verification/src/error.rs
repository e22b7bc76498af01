//! What a reading or an assertion reports when it does not succeed.

use vstd::prelude::*;

verus! {

/// Why a testkit operation did not succeed.
#[derive(Debug)]
pub enum TestkitError {
    /// An assertion did not hold; the text says what was expected and seen.
    AssertionFailed(String),
    /// There is no entry to read a TTL from: it does not exist, it has expired
    /// and was not restored by the host, the address names no contract, or the
    /// SDK failed to read it.
    EntryUnavailable,
    /// The environment gave no access to its ledger information.
    LedgerUnavailable,
    /// The ledger sequence number has no room for the requested advance.
    SequenceOverflow,
}

impl TestkitError {
    /// The text of the error.
    pub open spec fn text(self) -> Seq<char> {
        match self {
            TestkitError::AssertionFailed(text) => text@,
            TestkitError::EntryUnavailable => "there is no storage entry to read a TTL from"@,
            TestkitError::LedgerUnavailable => "the ledger information is unavailable"@,
            TestkitError::SequenceOverflow => "the ledger sequence number would overflow"@,
        }
    }

    /// The text of the error: for a failed assertion, what was expected and
    /// seen.
    pub fn message(&self) -> (message: String)
        ensures
            message@ == self.text(),
    {
        match self {
            TestkitError::AssertionFailed(text) => text.clone(),
            TestkitError::EntryUnavailable =>
                "there is no storage entry to read a TTL from".to_owned(),
            TestkitError::LedgerUnavailable => "the ledger information is unavailable".to_owned(),
            TestkitError::SequenceOverflow =>
                "the ledger sequence number would overflow".to_owned(),
        }
    }
}

/// Whether `result` reports exactly `failure`: success where there is none,
/// and a failed assertion with that text where there is one.
pub open spec fn reports(result: Result<(), TestkitError>, failure: Option<Seq<char>>) -> bool {
    match failure {
        None => result is Ok,
        Some(text) => result matches Err(TestkitError::AssertionFailed(message)) && message@
            == text,
    }
}

} // verus!
