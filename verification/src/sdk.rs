//! The calls into the Soroban SDK.
//!
//! An SDK environment is a handle to a host whose storage and ledger change
//! behind it, so what a call returns is not determined by its arguments. What
//! the contracts state instead is a record: a [`TestEnv`] notes each call that
//! is made through it, with the outcome, in the order in which the calls are
//! made. It owns its handle, and every call in the crate is made through one,
//! so the record leaves out nothing that the crate asks of a host.
//!
//! The calls go to functions of the host that return an error where they cannot
//! do their work, and that start no metered invocation: no limit on what an
//! invocation may use is checked behind them.

use soroban_sdk::testutils::{Snapshot, SnapshotSource};
use soroban_sdk::xdr::{ContractDataDurability, LedgerKey, LedgerKeyContractData, ScVal};
use soroban_sdk::{Address, Env, TryFromVal, Val};
use std::rc::Rc;
use vstd::prelude::*;

verus! {

/// The SDK's environment handle.
#[verifier::external_type_specification]
#[verifier::external_body]
pub struct ExEnv(Env);

/// The SDK's account or contract address.
#[verifier::external_type_specification]
#[verifier::external_body]
pub struct ExAddress(Address);

/// The SDK's untyped value, the form in which storage keys reach the host.
#[verifier::external_type_specification]
#[verifier::external_body]
pub struct ExVal(Val);

/// What the library reads of the ledger information, taken at one moment.
#[derive(Debug, Clone, Copy, PartialEq, Eq, Structural)]
pub struct LedgerState {
    /// The sequence number of the current ledger.
    pub sequence: u32,
    /// The most ledgers that an entry may live for, counting the current one.
    pub max_entry_ttl: u32,
}

/// How long the ledger keeps a contract's data entry after it expired.
#[derive(Debug, Clone, Copy, PartialEq, Eq, Structural)]
pub enum Durability {
    /// Not at all.
    Temporary,
    /// Until it is restored.
    Persistent,
}

/// One step of what was done on an environment, with its outcome.
#[allow(inconsistent_fields)]
pub enum Step {
    /// The host was asked to start counting anew against its budget.
    Budget,
    /// The last ledger that the contract's data entry under the key lives in was
    /// looked up among the entries that the host stores.
    Stored { contract: Address, durability: Durability, key: Val, live_until: Option<u32> },
    /// The host was asked for the last ledger that one of the contract's entries
    /// lives in: the data entry under the key, or the instance entry where there
    /// is no key.
    Entry {
        contract: Address,
        durability: Durability,
        key: Option<Val>,
        live_until: Option<u32>,
    },
    /// The ledger information was read.
    Ledger { state: Option<LedgerState> },
    /// The ledger's sequence number was set, or the host refused to set it.
    Sequence { sequence: u32, done: bool },
    /// Code under test was run.
    Run { code: Ghost<int> },
}

/// The mark of a piece of code in a record. Nothing is known of it but that the
/// same code has the same mark, so the record of one piece of code can be shown
/// to be that of another only where the two are the same.
pub open spec fn code_of<F>(f: F) -> int {
    vstd::pervasive::arbitrary::<spec_fn(F) -> int>()(f)
}

/// The step of running `f`.
pub open spec fn run_step<F>(f: F) -> Step {
    Step::Run { code: Ghost(code_of(f)) }
}

/// Code under test, which only an environment can run: to run it is to record
/// that it was run.
pub struct UnderTest<F> {
    f: F,
}

impl<F> UnderTest<F> {
    /// The code itself.
    pub closed spec fn code(self) -> F {
        self.f
    }

    /// Hands over code to be run.
    pub fn new(f: F) -> (code: UnderTest<F>)
        ensures
            code.code() == f,
    {
        UnderTest { f }
    }
}

/// A test's SDK environment, with the record of what was done through it.
pub struct TestEnv {
    env: Env,
    steps: Ghost<Seq<Step>>,
}

impl TestEnv {
    /// The SDK environment that is wrapped.
    pub closed spec fn handle(self) -> Env {
        self.env
    }

    /// All that was done through this value so far.
    pub closed spec fn steps(self) -> Seq<Step> {
        self.steps@
    }

    /// Wraps an SDK environment.
    pub fn new(env: Env) -> (wrapped: TestEnv)
        ensures
            wrapped.handle() == env,
            wrapped.steps() == Seq::<Step>::empty(),
    {
        TestEnv { env, steps: Ghost(Seq::empty()) }
    }

    /// The SDK environment that is wrapped.
    pub fn env(&self) -> (env: &Env)
        ensures
            *env == self.handle(),
    {
        &self.env
    }

    /// Runs code under test.
    pub(crate) fn run<T, F: FnOnce() -> T>(&mut self, code: UnderTest<F>) -> (outcome: T)
        requires
            code.code().requires(()),
        ensures
            code.code().ensures((), outcome),
            final(self).handle() == old(self).handle(),
            final(self).steps() == old(self).steps().push(run_step(code.code())),
    {
        let ghost step = run_step(code.f);
        let f = code.f;
        let outcome = f();
        self.steps = Ghost(self.steps@.push(step));
        outcome
    }

    /// Calls `reset` on the host's budget, as the host does itself at the start
    /// of an invocation: the limits stay, and what was spent is forgotten. The
    /// host refuses where it is just using the budget; whether it did is left
    /// unsaid, for a budget that is still spent shows in the calls that follow.
    #[verifier::external_body]
    pub(crate) fn reset_budget(&mut self)
        ensures
            final(self).handle() == old(self).handle(),
            final(self).steps() == old(self).steps().push(Step::Budget),
    {
        let _ = self.env.host().budget_cloned().reset();
    }

    /// Calls the host's `get_stored_entries`, and looks up the contract's data
    /// entry of the given durability under the key in what it returns, with
    /// `LedgerSnapshot::update_entries` and `get`: the last ledger that the entry
    /// lives in, as it is stored, whether that ledger has passed or not. `None`
    /// stands for everything else: the host stores no such entry, which it may
    /// not yet have taken over from what it was made from, it returned an error,
    /// the entry has no such ledger, or `ScVal::try_from_val` could not write out
    /// the address or the key. Which of the two comes, and which ledger, is left
    /// unsaid: it depends on what the host holds.
    #[verifier::external_body]
    pub(crate) fn stored_live_until(
        &mut self,
        contract: &Address,
        durability: Durability,
        key: &Val,
    ) -> (live_until: Option<u32>)
        ensures
            final(self).handle() == old(self).handle(),
            final(self).steps() == old(self).steps().push(
                Step::Stored { contract: *contract, durability, key: *key, live_until },
            ),
    {
        let address = ScVal::try_from_val(contract.env().host(), &contract.to_val()).ok()?;
        let ScVal::Address(contract) = address else { return None };
        let key = ScVal::try_from_val(self.env.host(), key).ok()?;
        let durability = match durability {
            Durability::Temporary => ContractDataDurability::Temporary,
            Durability::Persistent => ContractDataDurability::Persistent,
        };
        let key = LedgerKey::ContractData(LedgerKeyContractData { contract, key, durability });
        let mut stored = Snapshot::default().ledger;
        stored.update_entries(&self.env.host().get_stored_entries().ok()?);
        stored.get(&Rc::new(key)).ok()??.1
    }

    /// Calls the host's `get_ledger_entry` for the contract's data entry of the
    /// given durability under the key, or for its instance entry where there is no
    /// key, and takes the last ledger that the entry lives in out of the result.
    /// `None` stands for everything else: the host has no such entry, it returned
    /// an error, the entry has no such ledger, or `ScVal::try_from_val` could not
    /// write out the address or the key. Which of the two comes, and which ledger,
    /// is left unsaid: it depends on what the host holds. The host restores an
    /// expired persistent entry when it is read.
    #[verifier::external_body]
    pub(crate) fn live_until(
        &mut self,
        contract: &Address,
        durability: Durability,
        key: Option<Val>,
    ) -> (live_until: Option<u32>)
        ensures
            final(self).handle() == old(self).handle(),
            final(self).steps() == old(self).steps().push(
                Step::Entry { contract: *contract, durability, key, live_until },
            ),
    {
        let address = ScVal::try_from_val(contract.env().host(), &contract.to_val()).ok()?;
        let ScVal::Address(contract) = address else { return None };
        let key = match key {
            Some(key) => ScVal::try_from_val(self.env.host(), &key).ok()?,
            None => ScVal::LedgerKeyContractInstance,
        };
        let durability = match durability {
            Durability::Temporary => ContractDataDurability::Temporary,
            Durability::Persistent => ContractDataDurability::Persistent,
        };
        let key = LedgerKey::ContractData(LedgerKeyContractData { contract, key, durability });
        self.env.host().get_ledger_entry(&Rc::new(key)).ok()??.1
    }

    /// Calls the host's `with_ledger_info`, on which the SDK's `Ledger::get` is
    /// built, and takes two fields out of the information. `None` stands for the
    /// error that the host returns where it has no ledger information or is just
    /// changing it. The values themselves are left unsaid: the host holds them.
    #[verifier::external_body]
    pub(crate) fn ledger(&mut self) -> (state: Option<LedgerState>)
        ensures
            final(self).handle() == old(self).handle(),
            final(self).steps() == old(self).steps().push(Step::Ledger { state }),
    {
        self.env.host().with_ledger_info(
            |info| Ok(
                LedgerState { sequence: info.sequence_number, max_entry_ttl: info.max_entry_ttl },
            ),
        ).ok()
    }

    /// Calls the host's `with_mut_ledger_info`, on which the SDK's
    /// `Ledger::set_sequence_number` is built, to set the sequence number and
    /// nothing else. `false` stands for the error that the host returns where it
    /// has no ledger information or is just using it. That a later reading gives
    /// the sequence number back is left unsaid: other handles to the same host
    /// may change it in between.
    #[verifier::external_body]
    pub(crate) fn set_sequence(&mut self, sequence: u32) -> (done: bool)
        ensures
            final(self).handle() == old(self).handle(),
            final(self).steps() == old(self).steps().push(Step::Sequence { sequence, done }),
    {
        self.env.host().with_mut_ledger_info(|info| info.sequence_number = sequence).is_ok()
    }
}

} // verus!
