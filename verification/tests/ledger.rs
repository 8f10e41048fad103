use rust_trends::store::{LedgerEntry, Store, SECONDS_PER_DAY};

const T0: i64 = 1_700_000_000;

#[test]
fn nothing_recorded_is_never_recent() {
    let store = Store::new();
    assert!(!store.was_announced_recently("rust-lang/rust", 14, T0));
    assert!(store.entries().is_empty());
}

#[test]
fn recorded_identity_is_recent_at_the_same_instant() {
    let mut store = Store::new();
    store.record("rust-lang/rust", T0);
    assert!(store.was_announced_recently("rust-lang/rust", 14, T0));
}

#[test]
fn recorded_identity_is_recent_after_thirteen_days() {
    let mut store = Store::new();
    store.record("rust-lang/rust", T0);
    assert!(store.was_announced_recently("rust-lang/rust", 14, T0 + 13 * SECONDS_PER_DAY));
}

#[test]
fn window_reaches_back_exactly_its_length() {
    let mut store = Store::new();
    store.record("rust-lang/rust", T0);
    let end = T0 + 14 * SECONDS_PER_DAY;
    assert!(store.was_announced_recently("rust-lang/rust", 14, end - 1));
    assert!(store.was_announced_recently("rust-lang/rust", 14, end));
    assert!(!store.was_announced_recently("rust-lang/rust", 14, end + 1));
    assert!(!store.was_announced_recently("rust-lang/rust", 14, end + SECONDS_PER_DAY));
}

#[test]
fn other_identities_are_not_touched_by_a_record() {
    let mut store = Store::new();
    store.record("rust-lang/rust", T0);
    assert!(!store.was_announced_recently("rust-lang/cargo", 14, T0));
    assert!(!store.was_announced_recently("rust-lang/rus", 14, T0));
    assert!(!store.was_announced_recently("", 14, T0));
}

#[test]
fn only_the_latest_of_several_entries_counts() {
    let mut store = Store::new();
    store.record("a/b", T0);
    store.record("a/b", T0 + 20 * SECONDS_PER_DAY);
    store.record("a/b", T0 + 10 * SECONDS_PER_DAY);
    let latest = T0 + 20 * SECONDS_PER_DAY;
    assert!(store.was_announced_recently("a/b", 14, latest + 14 * SECONDS_PER_DAY));
    assert!(!store.was_announced_recently("a/b", 14, latest + 14 * SECONDS_PER_DAY + 1));
}

#[test]
fn recording_twice_adds_two_entries() {
    let mut store = Store::new();
    store.record("a/b", T0);
    store.record("a/b", T0);
    assert_eq!(store.entries().len(), 2);
    assert_eq!(store.entries()[0], LedgerEntry::new("a/b", T0));
    assert_eq!(store.entries()[1], LedgerEntry::new("a/b", T0));
}

#[test]
fn record_appends_in_call_order() {
    let mut store = Store::new();
    store.record("first", 3);
    store.record("second", 1);
    store.record("third", 2);
    let entries = store.entries();
    assert_eq!(entries.len(), 3);
    assert_eq!(entries[0].identity(), "first");
    assert_eq!(entries[0].announced_at(), 3);
    assert_eq!(entries[1].identity(), "second");
    assert_eq!(entries[1].announced_at(), 1);
    assert_eq!(entries[2].identity(), "third");
    assert_eq!(entries[2].announced_at(), 2);
}

#[test]
fn record_leaves_the_layout_number() {
    let mut store = Store::new();
    let before = store.current_version();
    store.record("a/b", T0);
    assert_eq!(store.current_version(), before);
}

#[test]
fn zero_day_window_holds_the_instant_of_recording_only() {
    let mut store = Store::new();
    store.record("a/b", T0);
    assert!(store.was_announced_recently("a/b", 0, T0));
    assert!(!store.was_announced_recently("a/b", 0, T0 + 1));
}

#[test]
fn window_check_survives_the_extremes_of_the_clock() {
    let mut store = Store::new();
    store.record("a/b", i64::MIN);
    store.record("c/d", i64::MAX);
    assert!(store.was_announced_recently("a/b", i64::MAX, i64::MAX));
    assert!(!store.was_announced_recently("c/d", i64::MIN, i64::MAX));
    assert!(store.was_announced_recently("c/d", i64::MAX, i64::MIN));
    assert!(!store.was_announced_recently("a/b", i64::MIN, i64::MIN));
    assert!(!store.was_announced_recently("a/b", 0, i64::MAX));
    assert!(store.was_announced_recently("c/d", 0, i64::MAX));
}

#[test]
fn prune_deletes_strictly_older_entries_and_keeps_order() {
    let mut store = Store::new();
    store.record("old", 10);
    store.record("edge", 20);
    store.record("older", 5);
    store.record("new", 30);
    store.prune_older_than(20);
    let entries = store.entries();
    assert_eq!(entries.len(), 2);
    assert_eq!(entries[0], LedgerEntry::new("edge", 20));
    assert_eq!(entries[1], LedgerEntry::new("new", 30));
}

#[test]
fn prune_at_the_window_start_does_not_change_the_window_check() {
    let mut store = Store::new();
    store.record("a/b", T0);
    store.record("c/d", T0 + 10 * SECONDS_PER_DAY);
    store.record("a/b", T0 + 3 * SECONDS_PER_DAY);
    let now = T0 + 16 * SECONDS_PER_DAY;
    let before_ab = store.was_announced_recently("a/b", 14, now);
    let before_cd = store.was_announced_recently("c/d", 14, now);
    store.prune_older_than(now - 14 * SECONDS_PER_DAY);
    assert_eq!(store.was_announced_recently("a/b", 14, now), before_ab);
    assert_eq!(store.was_announced_recently("c/d", 14, now), before_cd);
    assert!(before_ab);
    assert!(before_cd);
    assert_eq!(store.entries().len(), 2);
}

#[test]
fn prune_of_everything_leaves_an_empty_ledger() {
    let mut store = Store::new();
    store.record("a/b", 1);
    store.record("c/d", 2);
    store.prune_older_than(i64::MAX);
    assert!(store.entries().is_empty());
    assert_eq!(store.current_version(), 2);
}

#[test]
fn ledger_entry_keeps_what_it_was_made_of() {
    let entry = LedgerEntry::new("a/b", -7);
    assert_eq!(entry.identity(), "a/b");
    assert_eq!(entry.announced_at(), -7);
    assert_eq!(entry.clone(), entry);
}
