//! The rules that decide on given readings.

use soroban_testkit::error::TestkitError;
use soroban_testkit::sdk::LedgerState;
use soroban_testkit::text::{integer, natural};
use soroban_testkit::ttl::payload::{panic_message, PanicPayload};
use soroban_testkit::ttl::reading::Reading;
use soroban_testkit::ttl::verdict::{
    check_at_least, check_bump, check_bump_all, check_change, check_last_moment, check_no_bump,
    check_survival, ledgers_until_expiry, ledgers_until_last_moment, LabelledTtl,
};
use soroban_testkit::ttl::{StorageKind, TtlSnapshot};

const KINDS: [StorageKind; 3] = [
    StorageKind::Temporary,
    StorageKind::Persistent,
    StorageKind::Instance,
];

fn text(result: Result<(), TestkitError>) -> String {
    match result {
        Err(TestkitError::AssertionFailed(text)) => text,
        other => panic!("expected a failed assertion, got {other:?}"),
    }
}

#[test]
fn numbers_are_written_in_decimal() {
    for n in [0, 1, 9, 10, 99, 100, 1_234_567_890, u64::MAX] {
        assert_eq!(natural(n), format!("{n}"));
    }
    for n in [0, 7, -7, -10, 4095, i64::MAX, i64::MIN] {
        assert_eq!(integer(n), format!("{n}"));
    }
}

#[test]
fn kinds_are_named_as_they_are_written() {
    for kind in KINDS {
        assert_eq!(kind.name(), format!("{kind:?}"));
    }
}

#[test]
fn a_bump_is_a_ttl_beyond_the_one_before() {
    assert!(check_bump(StorageKind::Persistent, 10, 11).is_ok());
    assert_eq!(
        text(check_bump(StorageKind::Persistent, 10, 10)),
        "expected the call to extend the Persistent TTL beyond 10, but it was 10 afterward"
    );
    assert_eq!(
        text(check_bump(StorageKind::Temporary, 10, 0)),
        "expected the call to extend the Temporary TTL beyond 10, but it was 0 afterward"
    );
}

#[test]
fn no_bump_is_the_inverse_of_a_bump() {
    assert_eq!(
        text(check_no_bump(StorageKind::Instance, 9, 12)),
        "expected the call to NOT extend the Instance TTL, but it went from 9 to 12"
    );
    for kind in KINDS {
        for before in [0, 1, 4095, u32::MAX] {
            for after in [0, 1, 4095, u32::MAX] {
                assert_ne!(
                    check_bump(kind, before, after).is_ok(),
                    check_no_bump(kind, before, after).is_ok()
                );
            }
        }
    }
}

#[test]
fn a_minimum_is_met_up_to_the_ttl() {
    assert!(check_at_least(StorageKind::Persistent, 5, 0).is_ok());
    assert!(check_at_least(StorageKind::Persistent, 5, 5).is_ok());
    assert_eq!(
        text(check_at_least(StorageKind::Persistent, 5, 6)),
        "expected the Persistent TTL to be at least 6 ledgers, but it is 5"
    );
}

#[test]
fn a_change_is_held_to_the_exact_amount() {
    assert!(check_change(StorageKind::Persistent, -10, 4095, 4085).is_ok());
    assert!(check_change(StorageKind::Persistent, 4_294_967_295, 0, u32::MAX).is_ok());
    assert_eq!(
        text(check_change(StorageKind::Persistent, 5, 4095, 4085)),
        "expected the call to change the Persistent TTL by 5 ledgers, \
         but it went from 4095 to 4085 (-10)"
    );
    assert_eq!(
        text(check_change(StorageKind::Temporary, i64::MIN, 0, 3)),
        "expected the call to change the Temporary TTL by -9223372036854775808 ledgers, \
         but it went from 0 to 3 (3)"
    );
}

#[test]
fn the_exact_change_is_the_snapshot_difference() {
    let before = TtlSnapshot::taken(StorageKind::Persistent, 100);
    let after = TtlSnapshot::taken(StorageKind::Persistent, 140);
    assert!(check_change(StorageKind::Persistent, before.diff(&after), 100, 140).is_ok());
    assert!(check_change(StorageKind::Persistent, after.diff(&before), 100, 140).is_err());
}

#[test]
fn snapshot_differences_add_up() {
    let a = TtlSnapshot::taken(StorageKind::Instance, 0);
    let b = TtlSnapshot::taken(StorageKind::Instance, u32::MAX);
    let c = TtlSnapshot::taken(StorageKind::Instance, 12);
    assert_eq!(a.diff(&a), 0);
    assert_eq!(a.diff(&b), 4_294_967_295);
    assert_eq!(b.diff(&a), -4_294_967_295);
    assert_eq!(a.diff(&b) + b.diff(&c), a.diff(&c));
    assert_eq!(b, TtlSnapshot::taken(StorageKind::Instance, u32::MAX));
    assert_ne!(b, TtlSnapshot::taken(StorageKind::Temporary, u32::MAX));
}

#[test]
fn the_bulk_rule_is_every_single_rule() {
    let entry = |label, before, after| LabelledTtl {
        label,
        before,
        after,
    };
    assert!(check_bump_all(StorageKind::Persistent, &vec![]).is_ok());
    let bumped = vec![entry("a", 1, 2), entry("b", 0, 9)];
    assert!(check_bump_all(StorageKind::Persistent, &bumped).is_ok());
    let mixed = vec![entry("a", 1, 2), entry("b", 9, 9), entry("", 7, 3)];
    assert_eq!(
        text(check_bump_all(StorageKind::Temporary, &mixed)),
        "expected the call to extend the Temporary TTL for all keys, but some did not:\
         \n  b: expected > 9, got 9\n  : expected > 7, got 3"
    );
}

#[test]
fn panics_are_told_by_their_message() {
    assert_eq!(panic_message(&PanicPayload::Literal("boom")), "boom");
    assert_eq!(panic_message(&PanicPayload::Owned("b\u{f6}\u{f6}m".to_string())), "b\u{f6}\u{f6}m");
    assert_eq!(panic_message(&PanicPayload::Opaque), "<non-string panic payload>");
}

#[test]
fn a_closure_that_completes_is_not_reported() {
    for kind in KINDS {
        assert!(check_survival(kind, &Ok(())).is_ok());
        assert!(check_last_moment(kind, &Ok(())).is_ok());
    }
    assert_eq!(
        text(check_survival(StorageKind::Instance, &Err(PanicPayload::Literal("boom")))),
        "expected the contract to survive Instance storage expiry gracefully, \
         but it panicked: boom"
    );
    assert_eq!(
        text(check_last_moment(StorageKind::Instance, &Err(PanicPayload::Literal("boom")))),
        "closure panicked when run just before Instance expiry: boom"
    );
}

#[test]
fn the_last_moment_is_one_ledger_short() {
    assert_eq!(ledgers_until_last_moment(StorageKind::Persistent, 1).unwrap(), 0);
    assert_eq!(ledgers_until_last_moment(StorageKind::Persistent, u32::MAX).unwrap(), 4_294_967_294);
    assert!(ledgers_until_last_moment(StorageKind::Persistent, 0).is_err());
}

#[test]
fn expiry_is_one_ledger_past_the_maximum() {
    assert_eq!(ledgers_until_expiry(0), 1);
    assert_eq!(ledgers_until_expiry(6_312_000), 6_312_001);
    assert_eq!(ledgers_until_expiry(u32::MAX), u32::MAX);
}

#[test]
fn a_sequence_number_advances_as_far_as_there_are_any() {
    let state = LedgerState {
        sequence: 7,
        max_entry_ttl: 100,
    };
    assert_eq!(state.advanced(0), Some(7));
    assert_eq!(state.advanced(10), Some(17));
    assert_eq!(state.advanced(u32::MAX - 7), Some(u32::MAX));
    assert_eq!(state.advanced(u32::MAX - 6), None);
}

#[test]
fn errors_have_a_message() {
    let failed = TestkitError::AssertionFailed("as said".to_string());
    assert_eq!(failed.message(), "as said");
    assert_eq!(
        TestkitError::EntryUnavailable.message(),
        "there is no storage entry to read a TTL from"
    );
    assert_eq!(
        TestkitError::LedgerUnavailable.message(),
        "the ledger information is unavailable"
    );
    assert_eq!(
        TestkitError::SequenceOverflow.message(),
        "the ledger sequence number would overflow"
    );
}

#[test]
fn a_reading_tells_the_ledgers_left() {
    let at = |stored: Option<u32>, fetched: Option<u32>, sequence: u32| Reading {
        stored,
        fetched,
        state: Some(LedgerState {
            sequence,
            max_entry_ttl: 100,
        }),
    };
    for kind in KINDS {
        assert_eq!(at(None, Some(4095), 0).ttl(kind).unwrap(), 4095);
        assert_eq!(at(None, Some(20), 13).ttl(kind).unwrap(), 7);
        assert_eq!(at(None, Some(20), 20).ttl(kind).unwrap(), 0);
        assert_eq!(at(None, Some(u32::MAX), 0).ttl(kind).unwrap(), u32::MAX);
        assert!(matches!(
            at(None, Some(20), 21).ttl(kind),
            Err(TestkitError::EntryUnavailable)
        ));
        assert!(matches!(
            at(None, None, 0).ttl(kind),
            Err(TestkitError::EntryUnavailable)
        ));
        let blind = Reading {
            stored: None,
            fetched: Some(20),
            state: None,
        };
        assert!(matches!(blind.ttl(kind), Err(TestkitError::LedgerUnavailable)));
    }
    // What is stored tells the life of a persistent entry, and of no other.
    let both = at(Some(20), Some(30), 13);
    assert_eq!(both.live_until(StorageKind::Persistent), Some(20));
    assert_eq!(both.ttl(StorageKind::Persistent).unwrap(), 7);
    assert_eq!(both.ttl(StorageKind::Temporary).unwrap(), 17);
    assert_eq!(both.ttl(StorageKind::Instance).unwrap(), 17);
}
