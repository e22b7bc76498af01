//! The rules that decide, from TTL readings, whether an assertion holds.

use crate::error::{reports, TestkitError};
use crate::text::{indented, integer, integer_text, natural, natural_text};
use crate::ttl::payload::{panic_message, PanicPayload};
use crate::ttl::snapshot::{ttl_change, StorageKind};
use vstd::prelude::*;

verus! {

/// Why a call that took the TTL from `before` to `after` did not extend it.
pub open spec fn bump_failure(kind: StorageKind, before: u32, after: u32) -> Option<Seq<char>> {
    if after > before {
        None
    } else {
        Some(
            "expected the call to extend the "@ + kind.label() + " TTL beyond "@ + natural_text(
                before as nat,
            ) + ", but it was "@ + natural_text(after as nat) + " afterward"@,
        )
    }
}

/// Holds a call to having extended a TTL.
pub fn check_bump(kind: StorageKind, before: u32, after: u32) -> (result: Result<(), TestkitError>)
    ensures
        reports(result, bump_failure(kind, before, after)),
{
    if after <= before {
        let mut text = "expected the call to extend the ".to_owned();
        text.append(kind.name());
        text.append(" TTL beyond ");
        text.append(natural(before as u64).as_str());
        text.append(", but it was ");
        text.append(natural(after as u64).as_str());
        text.append(" afterward");
        return Err(TestkitError::AssertionFailed(text));
    }
    Ok(())
}

/// Why a call that took the TTL from `before` to `after` extended it after all.
pub open spec fn no_bump_failure(kind: StorageKind, before: u32, after: u32) -> Option<Seq<char>> {
    if after <= before {
        None
    } else {
        Some(
            "expected the call to NOT extend the "@ + kind.label() + " TTL, but it went from "@
                + natural_text(before as nat) + " to "@ + natural_text(after as nat),
        )
    }
}

/// Holds a call to not having extended a TTL.
pub fn check_no_bump(kind: StorageKind, before: u32, after: u32) -> (result: Result<
    (),
    TestkitError,
>)
    ensures
        reports(result, no_bump_failure(kind, before, after)),
{
    if after > before {
        let mut text = "expected the call to NOT extend the ".to_owned();
        text.append(kind.name());
        text.append(" TTL, but it went from ");
        text.append(natural(before as u64).as_str());
        text.append(" to ");
        text.append(natural(after as u64).as_str());
        return Err(TestkitError::AssertionFailed(text));
    }
    Ok(())
}

/// Why a TTL is not at least `min_ttl`.
pub open spec fn at_least_failure(kind: StorageKind, ttl: u32, min_ttl: u32) -> Option<Seq<char>> {
    if ttl >= min_ttl {
        None
    } else {
        Some(
            "expected the "@ + kind.label() + " TTL to be at least "@ + natural_text(min_ttl as nat)
                + " ledgers, but it is "@ + natural_text(ttl as nat),
        )
    }
}

/// Holds a TTL to a minimum.
pub fn check_at_least(kind: StorageKind, ttl: u32, min_ttl: u32) -> (result: Result<
    (),
    TestkitError,
>)
    ensures
        reports(result, at_least_failure(kind, ttl, min_ttl)),
{
    if ttl < min_ttl {
        let mut text = "expected the ".to_owned();
        text.append(kind.name());
        text.append(" TTL to be at least ");
        text.append(natural(min_ttl as u64).as_str());
        text.append(" ledgers, but it is ");
        text.append(natural(ttl as u64).as_str());
        return Err(TestkitError::AssertionFailed(text));
    }
    Ok(())
}

/// Why a call that took the TTL from `before` to `after` did not change it by
/// `expected`.
pub open spec fn change_failure(
    kind: StorageKind,
    expected: i64,
    before: u32,
    after: u32,
) -> Option<Seq<char>> {
    if ttl_change(before, after) == expected {
        None
    } else {
        Some(
            "expected the call to change the "@ + kind.label() + " TTL by "@ + integer_text(
                expected as int,
            ) + " ledgers, but it went from "@ + natural_text(before as nat) + " to "@
                + natural_text(after as nat) + " ("@ + integer_text(ttl_change(before, after))
                + ")"@,
        )
    }
}

/// Holds a call to having changed a TTL by an exact amount.
pub fn check_change(kind: StorageKind, expected: i64, before: u32, after: u32) -> (result: Result<
    (),
    TestkitError,
>)
    ensures
        reports(result, change_failure(kind, expected, before, after)),
{
    let change: i64 = (after as i64) - (before as i64);
    if change != expected {
        let mut text = "expected the call to change the ".to_owned();
        text.append(kind.name());
        text.append(" TTL by ");
        text.append(integer(expected).as_str());
        text.append(" ledgers, but it went from ");
        text.append(natural(before as u64).as_str());
        text.append(" to ");
        text.append(natural(after as u64).as_str());
        text.append(" (");
        text.append(integer(change).as_str());
        text.append(")");
        return Err(TestkitError::AssertionFailed(text));
    }
    Ok(())
}

/// The TTL of one labelled entry before and after a call.
#[derive(Debug, Clone, Copy)]
pub struct LabelledTtl<'a> {
    /// The name of the entry in a message.
    pub label: &'a str,
    /// The TTL before the call.
    pub before: u32,
    /// The TTL after the call.
    pub after: u32,
}

impl<'a> LabelledTtl<'a> {
    /// The line that reports the entry where its TTL was not extended.
    pub open spec fn line(self) -> Seq<char> {
        self.label@ + ": expected > "@ + natural_text(self.before as nat) + ", got "@
            + natural_text(self.after as nat)
    }

    /// Whether the TTL was extended.
    pub open spec fn bumped(self) -> bool {
        self.after > self.before
    }
}

/// The lines of the entries whose TTL was not extended, in the order of the
/// entries.
pub open spec fn stale_lines(entries: Seq<LabelledTtl>) -> Seq<Seq<char>> {
    entries.filter(|entry: LabelledTtl| !entry.bumped()).map_values(
        |entry: LabelledTtl| entry.line(),
    )
}

/// Why a call did not extend the TTL of all the entries.
pub open spec fn bump_all_failure(kind: StorageKind, entries: Seq<LabelledTtl>) -> Option<
    Seq<char>,
> {
    if forall|i: int| 0 <= i < entries.len() ==> (#[trigger] entries[i]).bumped() {
        None
    } else {
        Some(
            "expected the call to extend the "@ + kind.label()
                + " TTL for all keys, but some did not:"@ + indented(stale_lines(entries)),
        )
    }
}

/// Holds a call to having extended the TTL of every entry, and names each one
/// whose TTL it did not extend.
pub fn check_bump_all(kind: StorageKind, entries: &Vec<LabelledTtl>) -> (result: Result<
    (),
    TestkitError,
>)
    ensures
        reports(result, bump_all_failure(kind, entries@)),
{
    let mut text = "expected the call to extend the ".to_owned();
    text.append(kind.name());
    text.append(" TTL for all keys, but some did not:");
    let ghost head = text@;
    let mut all_bumped = true;
    let mut i: usize = 0;
    proof {
        reveal(Seq::filter);
        assert(stale_lines(entries@.take(0)) =~= Seq::empty());
        assert(text@ =~= head + indented(stale_lines(entries@.take(0))));
    }
    while i < entries.len()
        invariant
            i <= entries.len(),
            head == "expected the call to extend the "@ + kind.label()
                + " TTL for all keys, but some did not:"@,
            text@ == head + indented(stale_lines(entries@.take(i as int))),
            all_bumped <==> forall|j: int| 0 <= j < i ==> (#[trigger] entries@[j]).bumped(),
        decreases entries.len() - i,
    {
        let entry: &LabelledTtl = &entries[i];
        let ghost seen = entries@.take(i as int);
        let ghost lines = stale_lines(seen);
        proof {
            reveal(Seq::filter);
            assert(entries@.take(i + 1).drop_last() =~= seen);
            assert(stale_lines(entries@.take(i + 1)) =~= if entry.bumped() {
                lines
            } else {
                lines.push(entry.line())
            });
        }
        if entry.after <= entry.before {
            text.append("\n  ");
            text.append(entry.label);
            text.append(": expected > ");
            text.append(natural(entry.before as u64).as_str());
            text.append(", got ");
            text.append(natural(entry.after as u64).as_str());
            all_bumped = false;
            proof {
                assert(!entries@[i as int].bumped());
                assert(lines.push(entry.line()).drop_last() =~= lines);
                assert(text@ =~= head + indented(lines.push(entry.line())));
            }
        }
        i += 1;
    }
    assert(entries@.take(i as int) =~= entries@);
    if all_bumped {
        Ok(())
    } else {
        Err(TestkitError::AssertionFailed(text))
    }
}

/// Why a closure that was run after expiry did not survive it.
pub open spec fn survival_failure(kind: StorageKind, run: Result<(), PanicPayload>) -> Option<
    Seq<char>,
> {
    match run {
        Ok(_) => None,
        Err(payload) => Some(
            "expected the contract to survive "@ + kind.label()
                + " storage expiry gracefully, but it panicked: "@ + payload.text(),
        ),
    }
}

/// Holds a closure that was run after expiry to not having panicked.
pub fn check_survival(kind: StorageKind, run: &Result<(), PanicPayload>) -> (result: Result<
    (),
    TestkitError,
>)
    ensures
        reports(result, survival_failure(kind, *run)),
{
    match run {
        Ok(_) => Ok(()),
        Err(payload) => {
            let mut text = "expected the contract to survive ".to_owned();
            text.append(kind.name());
            text.append(" storage expiry gracefully, but it panicked: ");
            text.append(panic_message(payload).as_str());
            Err(TestkitError::AssertionFailed(text))
        },
    }
}

/// Why a closure that was run just before expiry did not complete.
pub open spec fn last_moment_failure(kind: StorageKind, run: Result<(), PanicPayload>) -> Option<
    Seq<char>,
> {
    match run {
        Ok(_) => None,
        Err(payload) => Some(
            "closure panicked when run just before "@ + kind.label() + " expiry: "@
                + payload.text(),
        ),
    }
}

/// Holds a closure that was run just before expiry to not having panicked.
pub fn check_last_moment(kind: StorageKind, run: &Result<(), PanicPayload>) -> (result: Result<
    (),
    TestkitError,
>)
    ensures
        reports(result, last_moment_failure(kind, *run)),
{
    match run {
        Ok(_) => Ok(()),
        Err(payload) => {
            let mut text = "closure panicked when run just before ".to_owned();
            text.append(kind.name());
            text.append(" expiry: ");
            text.append(panic_message(payload).as_str());
            Err(TestkitError::AssertionFailed(text))
        },
    }
}

/// Why there is no moment before expiry left to advance to.
pub open spec fn too_late_failure(kind: StorageKind) -> Seq<char> {
    "cannot run before expiry: "@ + kind.label() + " entry has already expired (TTL is 0)"@
}

/// How many ledgers to advance so that an entry with the given TTL is one
/// ledger short of expiring.
pub fn ledgers_until_last_moment(kind: StorageKind, ttl: u32) -> (result: Result<
    u32,
    TestkitError,
>)
    ensures
        match result {
            Ok(ledgers) => ttl > 0 && ledgers == ttl - 1,
            Err(error) => ttl == 0 && (error matches TestkitError::AssertionFailed(text) && text@
                == too_late_failure(kind)),
        },
{
    if ttl == 0 {
        let mut text = "cannot run before expiry: ".to_owned();
        text.append(kind.name());
        text.append(" entry has already expired (TTL is 0)");
        return Err(TestkitError::AssertionFailed(text));
    }
    Ok(ttl.saturating_sub(1))
}

/// How many ledgers to advance so that every entry expires: one more than the
/// most that any entry may live for, as far as there are that many.
pub open spec fn expiry_advance(max_entry_ttl: u32) -> u32 {
    if max_entry_ttl == u32::MAX {
        u32::MAX
    } else {
        (max_entry_ttl + 1) as u32
    }
}

/// How many ledgers to advance so that every entry expires.
pub fn ledgers_until_expiry(max_entry_ttl: u32) -> (ledgers: u32)
    ensures
        ledgers == expiry_advance(max_entry_ttl),
{
    max_entry_ttl.saturating_add(1)
}

} // verus!
