//! Readings and assertions on a real SDK environment.

use soroban_sdk::testutils::cost_estimate::NetworkInvocationResourceLimits;
use soroban_sdk::testutils::{ContractFunctionSet, EnvTestConfig, Ledger};
use soroban_sdk::{Address, Env, Error, String as SdkString, Symbol, Val, Vec};
use soroban_testkit::env::TestEnv;
use soroban_testkit::error::TestkitError;
use soroban_testkit::sdk::UnderTest;
use soroban_testkit::ttl::payload::PanicPayload;
use soroban_testkit::ttl::StorageKind;

/// A contract with a persistent record and a temporary value, each with a
/// careless and a careful way to use it.
struct Vault;

fn record(env: &Env) -> Symbol {
    Symbol::new(env, "Record")
}

fn temp(env: &Env) -> Symbol {
    Symbol::new(env, "Temp")
}

impl ContractFunctionSet for Vault {
    fn call(&self, func: &str, env: Env, args: &[Val]) -> Option<Val> {
        let storage = env.storage();
        match func {
            "set_record" => storage.persistent().set(&record(&env), &args[0]),
            "touch_record" => {
                let _: Val = storage.persistent().get(&record(&env)).unwrap();
            }
            "touch_record_checked" => {
                storage.persistent().extend_ttl(&record(&env), 5_000, 10_000)
            }
            "touch_instance" => storage.instance().extend_ttl(5_000, 10_000),
            "set_temp" => storage.temporary().set(&temp(&env), &args[0]),
            "read_temp_unchecked" => return Some(storage.temporary().get(&temp(&env)).unwrap()),
            "read_temp_checked" => {
                return Some(storage.temporary().get(&temp(&env)).unwrap_or(0u32.into()))
            }
            _ => return None,
        }
        Some(().into())
    }
}

struct VaultClient {
    env: Env,
    id: Address,
}

impl VaultClient {
    fn args(&self, values: &[u32]) -> Vec<Val> {
        let mut args = Vec::new(&self.env);
        for value in values {
            args.push_back((*value).into());
        }
        args
    }

    fn invoke(&self, func: &str, values: &[u32]) {
        let _: Val = self.env.invoke_contract(
            &self.id,
            &Symbol::new(&self.env, func),
            self.args(values),
        );
    }

    fn set_record(&self, value: u32) {
        self.invoke("set_record", &[value]);
    }

    fn touch_record(&self) {
        self.invoke("touch_record", &[]);
    }

    fn touch_record_checked(&self) {
        self.invoke("touch_record_checked", &[]);
    }

    fn touch_instance(&self) {
        self.invoke("touch_instance", &[]);
    }

    fn set_temp(&self, value: u32) {
        self.invoke("set_temp", &[value]);
    }

    fn read_temp_unchecked(&self) -> Result<u32, PanicPayload> {
        let read = self.env.try_invoke_contract::<u32, Error>(
            &self.id,
            &Symbol::new(&self.env, "read_temp_unchecked"),
            self.args(&[]),
        );
        match read {
            Ok(Ok(value)) => Ok(value),
            _ => Err(PanicPayload::Literal("the vault trapped")),
        }
    }

    fn read_temp_checked(&self) -> u32 {
        self.env.invoke_contract(
            &self.id,
            &Symbol::new(&self.env, "read_temp_checked"),
            self.args(&[]),
        )
    }
}

fn set_up() -> (TestEnv, Address, VaultClient) {
    let env = Env::new_with_config(EnvTestConfig {
        capture_snapshot_at_drop: false,
    });
    let id = env.register(Vault, ());
    let client = VaultClient {
        env: env.clone(),
        id: id.clone(),
    };
    (TestEnv::new(env), id, client)
}

fn record_key(env: &TestEnv) -> Val {
    record(env.env()).to_val()
}

fn temp_key(env: &TestEnv) -> Val {
    temp(env.env()).to_val()
}

/// A second handle to the same host, for closures that need one.
fn second_handle(env: &TestEnv) -> TestEnv {
    TestEnv::new(env.env().clone())
}

fn hold(result: Result<(), TestkitError>) {
    if let Err(error) = result {
        panic!("{}", error.message());
    }
}

#[test]
fn ttl_of_decreases_as_ledgers_advance() {
    let (mut env, id, client) = set_up();
    client.set_record(1);

    let before = env.ttl_of(&id, StorageKind::Persistent, &record_key(&env)).unwrap();
    hold(env.advance_ledgers(10));
    let after = env.ttl_of(&id, StorageKind::Persistent, &record_key(&env)).unwrap();

    assert!(after < before, "expected {after} < {before}");
    assert_eq!(before - after, 10);
}

#[test]
#[should_panic(expected = "expected the call to extend the Persistent TTL")]
fn assert_bumps_ttl_fails_on_a_contract_that_reads_without_bumping() {
    let (mut env, id, client) = set_up();
    client.set_record(1);

    hold(env.assert_bumps_ttl(&id, StorageKind::Persistent, &record_key(&env), UnderTest::new(|| {
        client.touch_record();
    })));
}

#[test]
fn assert_bumps_ttl_passes_on_the_fixed_contract() {
    let (mut env, id, client) = set_up();
    client.set_record(1);

    hold(env.assert_bumps_ttl(&id, StorageKind::Persistent, &record_key(&env), UnderTest::new(|| {
        client.touch_record_checked();
    })));
}

#[test]
#[should_panic(expected = "expected the contract to survive")]
fn assert_survives_expiry_fails_on_a_contract_that_panics_on_missing_entry() {
    let (mut env, _, client) = set_up();
    client.set_temp(42);

    hold(env.assert_survives_expiry(StorageKind::Temporary, UnderTest::new(|| {
        client.read_temp_unchecked().map(|_| ())
    })));
}

#[test]
fn assert_survives_expiry_passes_on_the_fixed_contract() {
    let (mut env, _, client) = set_up();
    client.set_temp(42);

    hold(env.assert_survives_expiry(StorageKind::Temporary, UnderTest::new(|| {
        assert_eq!(client.read_temp_checked(), 0);
        Ok(())
    })));
}

#[test]
fn assert_bumps_ttl_multi_passes_when_all_keys_bump() {
    let (mut env, id, client) = set_up();
    client.set_record(1);

    // The same key twice exercises the multi-key path.
    hold(env.assert_bumps_ttl_multi(
        &id,
        StorageKind::Persistent,
        &[(record_key(&env), "record_1"), (record_key(&env), "record_2")],
        UnderTest::new(|| {
            client.touch_record_checked();
        }),
    ));
}

#[test]
#[should_panic(expected = "expected the call to extend the Persistent TTL for all keys")]
fn assert_bumps_ttl_multi_fails_when_key_does_not_bump() {
    let (mut env, id, client) = set_up();
    client.set_record(1);

    hold(env.assert_bumps_ttl_multi(
        &id,
        StorageKind::Persistent,
        &[(record_key(&env), "record")],
        UnderTest::new(|| {
            client.touch_record(); // reads without bumping
        }),
    ));
}

#[test]
fn assert_no_ttl_bump_passes_on_read_only() {
    let (mut env, id, client) = set_up();
    client.set_record(1);

    hold(env.assert_no_ttl_bump(&id, StorageKind::Persistent, &record_key(&env), UnderTest::new(|| {
        client.touch_record(); // reads without bumping
    })));
}

#[test]
#[should_panic(expected = "expected the call to NOT extend the Persistent TTL")]
fn assert_no_ttl_bump_fails_when_ttl_is_extended() {
    let (mut env, id, client) = set_up();
    client.set_record(1);

    hold(env.assert_no_ttl_bump(&id, StorageKind::Persistent, &record_key(&env), UnderTest::new(|| {
        client.touch_record_checked(); // bumps TTL
    })));
}

#[test]
fn assert_ttl_at_least_passes_when_ttl_meets_minimum() {
    let (mut env, id, client) = set_up();
    client.set_record(1);

    let ttl = env.ttl_of(&id, StorageKind::Persistent, &record_key(&env)).unwrap();
    hold(env.assert_ttl_at_least(&id, StorageKind::Persistent, &record_key(&env), ttl));
}

#[test]
#[should_panic(expected = "expected the Persistent TTL to be at least")]
fn assert_ttl_at_least_fails_when_ttl_is_below_minimum() {
    let (mut env, id, client) = set_up();
    client.set_record(1);

    let ttl = env.ttl_of(&id, StorageKind::Persistent, &record_key(&env)).unwrap();
    hold(env.assert_ttl_at_least(&id, StorageKind::Persistent, &record_key(&env), ttl + 1));
}

#[test]
fn assert_ttl_delta_passes_on_exact_delta() {
    let (mut env, id, client) = set_up();
    let mut other = second_handle(&env);
    client.set_record(1);

    hold(env.assert_ttl_delta(&id, StorageKind::Persistent, &record_key(&env), -10, UnderTest::new(|| {
        hold(other.advance_ledgers(10));
    })));
    hold(env.assert_ttl_delta(&id, StorageKind::Persistent, &record_key(&env), 0, UnderTest::new(|| {
        client.touch_record();
    })));
}

#[test]
#[should_panic(expected = "expected the call to change the Persistent TTL by 5 ledgers")]
fn assert_ttl_delta_fails_on_a_different_delta() {
    let (mut env, id, client) = set_up();
    client.set_record(1);

    hold(env.assert_ttl_delta(&id, StorageKind::Persistent, &record_key(&env), 5, UnderTest::new(|| {
        client.touch_record(); // reads without bumping
    })));
}

#[test]
fn ttl_snapshot_diff_reports_signed_change() {
    let (mut env, id, client) = set_up();
    client.set_record(1);

    let before = env.ttl_snapshot(&id, StorageKind::Persistent, &record_key(&env)).unwrap();
    hold(env.advance_ledgers(10));
    let aged = env.ttl_snapshot(&id, StorageKind::Persistent, &record_key(&env)).unwrap();
    client.touch_record_checked();
    let bumped = env.ttl_snapshot(&id, StorageKind::Persistent, &record_key(&env)).unwrap();

    assert_eq!(before.kind(), StorageKind::Persistent);
    assert_eq!(before.diff(&aged), -10);
    assert_eq!(before.diff(&before), 0);
    assert_eq!(
        aged.diff(&bumped),
        i64::from(bumped.ttl()) - i64::from(aged.ttl())
    );
    assert!(aged.diff(&bumped) > 0);
}

#[test]
fn assert_runs_before_expiry_runs_closure() {
    let (mut env, id, client) = set_up();
    client.set_record(1);

    let mut ran = false;
    hold(env.assert_runs_before_expiry(&id, StorageKind::Persistent, &record_key(&env), UnderTest::new(|| {
        client.touch_record_checked();
        ran = true;
        Ok(())
    })));
    assert!(ran);
}

#[test]
#[should_panic(expected = "closure panicked when run just before")]
fn assert_runs_before_expiry_forwards_closure_panic() {
    let (mut env, id, client) = set_up();
    client.set_record(1);

    hold(env.assert_runs_before_expiry(&id, StorageKind::Persistent, &record_key(&env), UnderTest::new(|| {
        Err(PanicPayload::Literal("intentional test panic"))
    })));
}

#[test]
fn the_message_of_a_panic_is_forwarded() {
    let (mut env, id, client) = set_up();
    client.set_record(1);

    let result = env.assert_runs_before_expiry(
        &id,
        StorageKind::Persistent,
        &record_key(&env),
        UnderTest::new(|| Err(PanicPayload::Owned("intentional test panic".to_string()))),
    );
    assert_eq!(
        result.unwrap_err().message(),
        "closure panicked when run just before Persistent expiry: intentional test panic"
    );
    let result = env.assert_survives_expiry(StorageKind::Temporary, UnderTest::new(|| Err(PanicPayload::Opaque)));
    assert_eq!(
        result.unwrap_err().message(),
        "expected the contract to survive Temporary storage expiry gracefully, \
         but it panicked: <non-string panic payload>"
    );
}

#[test]
fn each_kind_reads_its_own_entry() {
    let (mut env, id, client) = set_up();
    client.set_record(1);
    client.set_temp(42);

    // The default network settings let a new persistent entry live for 4096
    // ledgers and a temporary one for 16, counting the current one.
    let key = record_key(&env);
    assert_eq!(env.ttl_of(&id, StorageKind::Persistent, &key).unwrap(), 4095);
    assert_eq!(env.ttl_of(&id, StorageKind::Temporary, &temp_key(&env)).unwrap(), 15);
    assert_eq!(env.ttl_of(&id, StorageKind::Instance, &key).unwrap(), 4095);
    client.touch_instance();
    assert_eq!(env.ttl_of(&id, StorageKind::Instance, &key).unwrap(), 10_000);
    assert_eq!(env.ttl_of(&id, StorageKind::Persistent, &key).unwrap(), 4095);
}

#[test]
fn the_key_does_not_matter_for_the_instance() {
    let (mut env, id, client) = set_up();
    client.touch_instance();

    assert_eq!(
        env.ttl_of(&id, StorageKind::Instance, &record_key(&env)).unwrap(),
        env.ttl_of(&id, StorageKind::Instance, &temp_key(&env)).unwrap()
    );
    let snapshot = env.ttl_snapshot(&id, StorageKind::Instance, &temp_key(&env)).unwrap();
    assert_eq!(snapshot.kind(), StorageKind::Instance);
    assert_eq!(snapshot.ttl(), 10_000);
}

#[test]
fn an_entry_that_is_not_there_has_no_ttl() {
    let (mut env, id, client) = set_up();
    client.set_record(1);

    let missing = temp_key(&env);
    for kind in [StorageKind::Temporary, StorageKind::Persistent] {
        assert!(matches!(
            env.ttl_of(&id, kind, &missing),
            Err(TestkitError::EntryUnavailable)
        ));
        assert!(matches!(
            env.ttl_snapshot(&id, kind, &missing),
            Err(TestkitError::EntryUnavailable)
        ));
        assert!(matches!(
            env.assert_ttl_at_least(&id, kind, &missing, 0),
            Err(TestkitError::EntryUnavailable)
        ));
        let mut ran = false;
        assert!(matches!(
            env.assert_bumps_ttl(&id, kind, &missing, UnderTest::new(|| ran = true)),
            Err(TestkitError::EntryUnavailable)
        ));
        assert!(matches!(
            env.assert_bumps_ttl_multi(
                &id,
                kind,
                &[(record_key(&env), "record"), (missing, "missing")],
                UnderTest::new(|| ran = true),
            ),
            Err(TestkitError::EntryUnavailable)
        ));
        assert!(!ran);
    }
    // A failed reading leaves the environment usable.
    assert_eq!(
        env.ttl_of(&id, StorageKind::Persistent, &record_key(&env)).unwrap(),
        4095
    );
}

#[test]
fn an_entry_that_the_call_removes_has_no_ttl_afterward() {
    let (mut env, id, client) = set_up();
    let mut other = second_handle(&env);
    client.set_temp(42);

    assert!(matches!(
        env.assert_no_ttl_bump(&id, StorageKind::Temporary, &temp_key(&env), UnderTest::new(|| {
            hold(other.expire(StorageKind::Temporary));
        })),
        Err(TestkitError::EntryUnavailable)
    ));
}

#[test]
fn an_account_has_no_entries() {
    let (mut env, _, _) = set_up();
    let account = Address::from_str(
        env.env(),
        "GA7QYNF7SOWQ3GLR2BGMZEHXAVIRZA4KVWLTJJFC7MGXUA74P7UJVSGZ",
    );

    let result = env.ttl_of(&account, StorageKind::Persistent, &record_key(&env));
    assert!(matches!(result, Err(TestkitError::EntryUnavailable)));
    let mut ran = false;
    let result = env.assert_ttl_delta(
        &account,
        StorageKind::Instance,
        &record_key(&env),
        0,
        UnderTest::new(|| ran = true),
    );
    assert!(matches!(result, Err(TestkitError::EntryUnavailable)));
    assert!(!ran);
}

#[test]
fn expire_advances_one_ledger_past_the_maximum() {
    let (mut env, id, client) = set_up();
    client.set_temp(42);
    env.env().as_contract(&id, || {
        let max = env.env().storage().max_ttl();
        env.env().storage().temporary().extend_ttl(&temp(env.env()), max, max);
    });
    assert_eq!(
        env.ttl_of(&id, StorageKind::Temporary, &temp_key(&env)).unwrap(),
        6_311_999
    );

    hold(env.expire(StorageKind::Temporary));
    assert_eq!(env.env().ledger().sequence(), 6_312_001);
    assert!(matches!(
        env.ttl_of(&id, StorageKind::Temporary, &temp_key(&env)),
        Err(TestkitError::EntryUnavailable)
    ));
}

#[test]
fn expire_advances_equally_for_every_kind() {
    for kind in [StorageKind::Temporary, StorageKind::Persistent, StorageKind::Instance] {
        let (mut env, _, _) = set_up();
        env.env().ledger().set_max_entry_ttl(99);
        hold(env.expire(kind));
        assert_eq!(env.env().ledger().sequence(), 101);
    }
}

#[test]
fn the_closure_runs_one_ledger_before_expiry() {
    let (mut env, id, client) = set_up();
    let mut other = second_handle(&env);
    client.set_temp(42);

    hold(env.assert_runs_before_expiry(&id, StorageKind::Temporary, &temp_key(&env), UnderTest::new(|| {
        assert_eq!(
            other.ttl_of(&id, StorageKind::Temporary, &temp_key(&other)).unwrap(),
            1
        );
        assert_eq!(client.read_temp_unchecked().unwrap(), 42);
        Ok(())
    })));
    assert_eq!(env.env().ledger().sequence(), 14);
}

#[test]
fn there_is_no_last_moment_at_a_ttl_of_zero() {
    let (mut env, id, client) = set_up();
    client.set_temp(42);
    hold(env.advance_ledgers(15));

    let mut ran = false;
    let result = env.assert_runs_before_expiry(
        &id,
        StorageKind::Temporary,
        &temp_key(&env),
        UnderTest::new(|| {
            ran = true;
            Ok(())
        }),
    );
    assert_eq!(
        result.unwrap_err().message(),
        "cannot run before expiry: Temporary entry has already expired (TTL is 0)"
    );
    assert!(!ran);
    assert_eq!(env.env().ledger().sequence(), 15);
}

#[test]
fn the_sequence_number_does_not_overflow() {
    let (mut env, _, _) = set_up();
    env.env().ledger().set_sequence_number(u32::MAX - 1);

    hold(env.advance_ledgers(1));
    assert_eq!(env.env().ledger().sequence(), u32::MAX);
    assert!(matches!(env.advance_ledgers(1), Err(TestkitError::SequenceOverflow)));
    assert!(matches!(
        env.expire(StorageKind::Persistent),
        Err(TestkitError::SequenceOverflow)
    ));
    let mut ran = false;
    assert!(matches!(
        env.assert_survives_expiry(StorageKind::Persistent, UnderTest::new(|| {
            ran = true;
            Ok(())
        })),
        Err(TestkitError::SequenceOverflow)
    ));
    assert!(!ran);
    assert_eq!(env.env().ledger().sequence(), u32::MAX);
}

#[test]
fn a_ledger_that_is_being_changed_is_unavailable() {
    let (mut env, _, _) = set_up();

    env.env().ledger().with_mut(|_| {
        assert!(matches!(env.advance_ledgers(1), Err(TestkitError::LedgerUnavailable)));
        assert!(matches!(
            env.expire(StorageKind::Instance),
            Err(TestkitError::LedgerUnavailable)
        ));
    });
    assert_eq!(env.env().ledger().sequence(), 0);
}

#[test]
fn the_bulk_report_names_the_stale_keys() {
    let (mut env, id, client) = set_up();
    client.set_record(1);
    env.env().as_contract(&id, || {
        env.env().storage().persistent().set(&temp(env.env()), &1u32);
    });

    let result = env.assert_bumps_ttl_multi(
        &id,
        StorageKind::Persistent,
        &[
            (temp_key(&env), "first"),
            (record_key(&env), "second"),
            (temp_key(&env), "third"),
        ],
        UnderTest::new(|| client.touch_record_checked()),
    );
    assert_eq!(
        result.unwrap_err().message(),
        "expected the call to extend the Persistent TTL for all keys, but some did not:\
         \n  first: expected > 4095, got 4095\
         \n  third: expected > 4095, got 4095"
    );
}

#[test]
fn an_empty_bulk_assertion_runs_the_closure_and_passes() {
    let (mut env, id, _) = set_up();

    let mut ran = false;
    hold(env.assert_bumps_ttl_multi(&id, StorageKind::Temporary, &[], UnderTest::new(|| ran = true)));
    assert!(ran);
}

/// A key that takes more than the 250 bytes that a network allows for one.
fn long_key(env: &Env) -> SdkString {
    SdkString::from_str(env, &"k".repeat(300))
}

#[test]
fn an_oversized_key_that_is_not_stored_has_no_ttl() {
    let (mut env, id, client) = set_up();
    client.set_record(1);
    let key = long_key(env.env()).to_val();

    for kind in [StorageKind::Temporary, StorageKind::Persistent] {
        assert!(matches!(
            env.ttl_of(&id, kind, &key),
            Err(TestkitError::EntryUnavailable)
        ));
        let mut ran = false;
        assert!(matches!(
            env.assert_no_ttl_bump(&id, kind, &key, UnderTest::new(|| ran = true)),
            Err(TestkitError::EntryUnavailable)
        ));
        assert!(!ran);
    }
    assert!(env.ttl_of(&id, StorageKind::Instance, &key).is_ok());
}

#[test]
fn an_oversized_key_that_is_stored_has_a_ttl() {
    let (mut env, id, _) = set_up();
    let mut other = second_handle(&env);
    env.env().cost_estimate().disable_resource_limits();
    env.env().as_contract(&id, || {
        env.env().storage().persistent().set(&long_key(env.env()), &1u32);
    });
    env.env()
        .cost_estimate()
        .enforce_resource_limits(NetworkInvocationResourceLimits::mainnet());
    let key = long_key(env.env()).to_val();

    assert_eq!(env.ttl_of(&id, StorageKind::Persistent, &key).unwrap(), 4095);
    hold(env.assert_ttl_delta(&id, StorageKind::Persistent, &key, -5, UnderTest::new(|| {
        hold(other.advance_ledgers(5))
    })));
}

#[test]
fn a_spent_budget_is_an_error() {
    let (mut env, id, client) = set_up();
    client.set_record(1);
    let key = record_key(&env);
    env.env().cost_estimate().budget().reset_limits(0, 0);

    assert!(matches!(
        env.ttl_of(&id, StorageKind::Persistent, &key),
        Err(TestkitError::EntryUnavailable)
    ));
    assert!(matches!(
        env.ttl_of(&id, StorageKind::Instance, &key),
        Err(TestkitError::EntryUnavailable)
    ));
    env.env().cost_estimate().budget().reset_default();
    assert_eq!(env.ttl_of(&id, StorageKind::Persistent, &key).unwrap(), 4095);
}

#[test]
fn readings_can_be_taken_over_and_over() {
    let (mut env, id, client) = set_up();
    client.set_record(1);
    let key = record_key(&env);

    for _ in 0..2_000 {
        assert_eq!(env.ttl_of(&id, StorageKind::Persistent, &key).unwrap(), 4095);
        assert_eq!(env.ttl_of(&id, StorageKind::Instance, &key).unwrap(), 4095);
    }
}

#[test]
fn the_ledger_is_left_where_the_closure_left_it() {
    let (mut env, _, _) = set_up();
    let mut other = second_handle(&env);
    env.env().ledger().set_max_entry_ttl(99);

    hold(env.assert_survives_expiry(StorageKind::Temporary, UnderTest::new(|| {
        assert_eq!(other.env().ledger().sequence(), 101);
        hold(other.advance_ledgers(7));
        Ok(())
    })));
    assert_eq!(env.env().ledger().sequence(), 108);
}

#[test]
fn an_extension_counts_against_the_ledgers_that_pass() {
    for (ledgers, delta) in [(5_904u32, 1i64), (5_905, 0), (5_906, -1)] {
        let (mut env, id, client) = set_up();
        let mut other = second_handle(&env);
        client.set_record(1);
        let key = record_key(&env);
        hold(env.assert_ttl_delta(&id, StorageKind::Persistent, &key, delta, UnderTest::new(|| {
            client.touch_record_checked();
            hold(other.advance_ledgers(ledgers));
        })));

        let (mut env, id, client) = set_up();
        let mut other = second_handle(&env);
        client.set_record(1);
        let key = record_key(&env);
        let bumped = env.assert_bumps_ttl(&id, StorageKind::Persistent, &key, UnderTest::new(|| {
            client.touch_record_checked();
            hold(other.advance_ledgers(ledgers));
        }));
        assert_eq!(bumped.is_ok(), delta > 0);
    }
}

#[test]
fn an_expired_persistent_entry_has_no_ttl_and_is_not_restored() {
    let (mut env, id, client) = set_up();
    client.set_record(1);
    let key = record_key(&env);
    hold(env.advance_ledgers(4095));
    assert_eq!(env.ttl_of(&id, StorageKind::Persistent, &key).unwrap(), 0);
    hold(env.advance_ledgers(1));

    for _ in 0..2 {
        assert!(matches!(
            env.ttl_of(&id, StorageKind::Persistent, &key),
            Err(TestkitError::EntryUnavailable)
        ));
    }
    let mut ran = false;
    assert!(matches!(
        env.assert_bumps_ttl(
            &id,
            StorageKind::Persistent,
            &key,
            UnderTest::new(|| ran = true),
        ),
        Err(TestkitError::EntryUnavailable)
    ));
    assert!(!ran);
    // The contract restores the entry when it uses it.
    client.touch_record();
    assert_eq!(env.ttl_of(&id, StorageKind::Persistent, &key).unwrap(), 4095);
}

#[test]
fn an_expired_instance_is_restored_when_read() {
    let (mut env, id, _) = set_up();
    let key = record_key(&env);
    hold(env.advance_ledgers(4096));

    assert_eq!(env.ttl_of(&id, StorageKind::Instance, &key).unwrap(), 4095);
}

/// The vault's environment made anew from a snapshot of its ledger.
fn set_up_from_snapshot() -> (TestEnv, Address) {
    let (env, id, client) = set_up();
    client.set_record(1);
    client.set_temp(42);
    let mut copy = Env::from_ledger_snapshot(env.env().to_ledger_snapshot());
    copy.set_config(EnvTestConfig {
        capture_snapshot_at_drop: false,
    });
    let id = Address::from_str(&copy, &id.to_string().to_string());
    (TestEnv::new(copy), id)
}

#[test]
fn the_entries_of_a_snapshot_are_read() {
    let (mut env, id) = set_up_from_snapshot();

    let key = record_key(&env);
    assert_eq!(env.ttl_of(&id, StorageKind::Persistent, &key).unwrap(), 4095);
    let key = temp_key(&env);
    assert_eq!(env.ttl_of(&id, StorageKind::Temporary, &key).unwrap(), 15);
    assert_eq!(env.ttl_of(&id, StorageKind::Instance, &key).unwrap(), 4095);
}

#[test]
fn an_expired_entry_of_a_snapshot_is_restored_when_first_read() {
    let (mut env, id) = set_up_from_snapshot();
    hold(env.advance_ledgers(4096));

    let key = record_key(&env);
    assert_eq!(env.ttl_of(&id, StorageKind::Persistent, &key).unwrap(), 4095);
    hold(env.advance_ledgers(4096));
    assert!(matches!(
        env.ttl_of(&id, StorageKind::Persistent, &key),
        Err(TestkitError::EntryUnavailable)
    ));
}

#[test]
fn what_was_spent_before_a_reading_does_not_count_against_it() {
    let (mut env, id, client) = set_up();
    client.set_record(1);
    client.set_temp(42);
    env.env().cost_estimate().budget().reset_limits(200_000, 1_000_000);

    for _ in 0..1_000 {
        let key = record_key(&env);
        assert_eq!(env.ttl_of(&id, StorageKind::Persistent, &key).unwrap(), 4095);
        assert_eq!(env.ttl_of(&id, StorageKind::Instance, &key).unwrap(), 4095);
        let key = temp_key(&env);
        assert_eq!(env.ttl_of(&id, StorageKind::Temporary, &key).unwrap(), 15);
    }
}

#[test]
fn readings_leave_the_ledger_as_it_was() {
    let (mut env, id, client) = set_up();
    client.set_record(1);
    client.set_temp(42);
    hold(env.advance_ledgers(15));
    let before = env.env().to_ledger_snapshot();

    let (record, temp) = (record_key(&env), temp_key(&env));
    let ttl = env.ttl_of(&id, StorageKind::Persistent, &record).unwrap();
    assert_eq!(env.ttl_of(&id, StorageKind::Persistent, &record).unwrap(), ttl);
    let snapshot = env.ttl_snapshot(&id, StorageKind::Persistent, &record).unwrap();
    assert_eq!(snapshot.ttl(), ttl);
    hold(env.assert_ttl_at_least(&id, StorageKind::Instance, &record, ttl));
    assert!(env.assert_ttl_at_least(&id, StorageKind::Instance, &record, ttl + 1).is_err());
    assert_eq!(env.ttl_of(&id, StorageKind::Temporary, &temp).unwrap(), 0);
    let result = env.assert_runs_before_expiry(
        &id,
        StorageKind::Temporary,
        &temp,
        UnderTest::new(|| Ok(())),
    );
    assert!(result.is_err());
    assert_eq!(env.env().to_ledger_snapshot(), before);
}
