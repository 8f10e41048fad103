//! The store: the version of its layout and the ledger of announcements.

use crate::error::Error;
use vstd::prelude::*;

verus! {

/// The first layout a store could be written in: the ledger, and a schema
/// record that holds the layout number alone.
pub const FIRST_BUILD: i32 = 1;

/// The layout this code reads and writes: the schema record also holds the
/// instants of creation and of the last run.
pub const CURRENT_BUILD: i32 = 2;

/// Seconds in one day of the no-repeat window.
pub const SECONDS_PER_DAY: i64 = 86_400;

/// The length of the no-repeat window, in days.
pub const WINDOW_DAYS: i64 = 14;

/// The record that tells in which layout a store was written.
#[derive(Clone, Copy, Debug, PartialEq, Eq)]
pub struct StoreSchema {
    build: i32,
}

impl StoreSchema {
    /// The layout number of this record.
    pub closed spec fn spec_build(&self) -> i32 {
        self.build
    }

    /// A record for layout `build`.
    pub fn new(build: i32) -> (schema: StoreSchema)
        ensures
            schema.spec_build() == build,
    {
        StoreSchema { build }
    }

    /// The layout number of this record.
    #[verifier::when_used_as_spec(spec_build)]
    pub fn build(&self) -> (build: i32)
        ensures
            build == self.spec_build(),
    {
        self.build
    }
}

/// One past announcement.
#[derive(Debug, PartialEq, Eq)]
pub struct LedgerEntry {
    identity: String,
    announced_at: i64,
}

/// The mathematical value of a [`LedgerEntry`].
pub struct EntryView {
    pub identity: Seq<char>,
    pub announced_at: int,
}

impl View for LedgerEntry {
    type V = EntryView;

    closed spec fn view(&self) -> EntryView {
        EntryView { identity: self.identity@, announced_at: self.announced_at as int }
    }
}

impl DeepView for LedgerEntry {
    type V = EntryView;

    open spec fn deep_view(&self) -> EntryView {
        self@
    }
}

impl Clone for LedgerEntry {
    fn clone(&self) -> (copy: LedgerEntry)
        ensures
            copy@ == self@,
    {
        LedgerEntry { identity: self.identity.clone(), announced_at: self.announced_at }
    }
}

impl LedgerEntry {
    /// The entry that says `identity` was announced at `announced_at`
    /// (seconds since the Unix epoch, UTC).
    pub fn new(identity: &str, announced_at: i64) -> (entry: LedgerEntry)
        ensures
            entry@ == (EntryView { identity: identity@, announced_at: announced_at as int }),
    {
        LedgerEntry { identity: identity.to_owned(), announced_at }
    }

    /// The identity that was announced.
    pub fn identity(&self) -> (identity: &String)
        ensures
            identity@ == self@.identity,
    {
        &self.identity
    }

    /// When it was announced.
    pub fn announced_at(&self) -> (instant: i64)
        ensures
            instant == self@.announced_at,
    {
        self.announced_at
    }
}

/// The earliest instant that still lies inside a window of `window_days`
/// days that ends at `now`.
pub open spec fn window_start(window_days: int, now: int) -> int {
    now - window_days * SECONDS_PER_DAY
}

/// Whether some entry says that `identity` was announced inside the window.
pub open spec fn announced_recently(
    entries: Seq<EntryView>,
    identity: Seq<char>,
    window_days: int,
    now: int,
) -> bool {
    exists|i: int|
        0 <= i < entries.len() && (#[trigger] entries[i]).identity == identity
            && entries[i].announced_at >= window_start(window_days, now)
}

/// The latest announcement of `identity`, if there was any.
pub open spec fn latest_announcement(entries: Seq<EntryView>, identity: Seq<char>) -> Option<int>
    decreases entries.len(),
{
    if entries.len() == 0 {
        None
    } else {
        let earlier = latest_announcement(entries.drop_last(), identity);
        let last = entries.last();
        if last.identity != identity {
            earlier
        } else if earlier is Some && earlier->Some_0 > last.announced_at {
            earlier
        } else {
            Some(last.announced_at)
        }
    }
}

/// The test that pruning keeps an entry: it is not older than `cutoff`.
pub open spec fn not_older_than(cutoff: int) -> spec_fn(EntryView) -> bool {
    |e: EntryView| e.announced_at >= cutoff
}

/// The layout a store opens with, given the layout numbers of the schema
/// records found: the current one where there is no record, the recorded
/// one where there is exactly one valid record, none otherwise.
pub open spec fn opened_build(builds: Seq<int>) -> Option<int> {
    if builds.len() == 0 {
        Some(CURRENT_BUILD as int)
    } else if builds.len() == 1 && builds[0] >= FIRST_BUILD {
        Some(builds[0])
    } else {
        None
    }
}

/// The layout numbers of schema records.
pub open spec fn builds_of(records: Seq<StoreSchema>) -> Seq<int> {
    Seq::new(records.len(), |i: int| records[i].spec_build() as int)
}

/// The migration steps that lead from layout `build` to the current one,
/// each named by the layout it produces.
pub open spec fn pending_steps(build: int) -> Seq<i32> {
    Seq::new((CURRENT_BUILD - build) as nat, |k: int| (build + 1 + k) as i32)
}

/// The store: one schema record and the ledger of announcements.
#[derive(Debug, PartialEq, Eq)]
pub struct Store {
    schema: StoreSchema,
    entries: Vec<LedgerEntry>,
}

/// The mathematical value of a [`Store`].
pub struct StoreView {
    pub build: int,
    pub entries: Seq<EntryView>,
}

impl StoreView {
    /// A store is well formed when its layout number is one that exists.
    /// Every store that [`Store::new`] or [`Store::open`] hands out is, and
    /// no operation changes that.
    pub open spec fn wf(self) -> bool {
        self.build >= FIRST_BUILD
    }

    /// The store after migration to the current layout: the same ledger
    /// under the current layout number. A store newer than the current
    /// layout has no migration.
    pub open spec fn migrated(self) -> Option<StoreView> {
        if self.build > CURRENT_BUILD {
            None
        } else {
            Some(StoreView { build: CURRENT_BUILD as int, entries: self.entries })
        }
    }
}

impl View for Store {
    type V = StoreView;

    closed spec fn view(&self) -> StoreView {
        StoreView { build: self.schema.spec_build() as int, entries: self.entries.deep_view() }
    }
}

fn in_window(announced_at: i64, window_days: i64, now: i64) -> (inside: bool)
    ensures
        inside == (announced_at >= window_start(window_days as int, now as int)),
{
    let day: i128 = SECONDS_PER_DAY as i128;
    assert(-0x8000_0000_0000_0000 * 86_400 <= window_days * day <= 0x8000_0000_0000_0000 * 86_400)
        by (nonlinear_arith)
        requires
            day == 86_400,
            -0x8000_0000_0000_0000 <= window_days <= 0x8000_0000_0000_0000,
    ;
    let span: i128 = (window_days as i128) * day;
    announced_at as i128 >= now as i128 - span
}

impl Store {
    /// A fresh store: current layout, nothing announced.
    pub fn new() -> (store: Store)
        ensures
            store@.wf(),
            store@.build == CURRENT_BUILD,
            store@.entries == Seq::<EntryView>::empty(),
    {
        let store = Store { schema: StoreSchema::new(CURRENT_BUILD), entries: Vec::new() };
        assert(store@.entries =~= Seq::<EntryView>::empty());
        store
    }

    /// Opens the store whose backing file held `records` as its schema
    /// records and `entries` as its ledger.
    ///
    /// A store without schema record is initialised at the current layout.
    /// More than one record, or a layout number below the first, is corrupt.
    pub fn open(records: Vec<StoreSchema>, entries: Vec<LedgerEntry>) -> (opened: Result<
        Store,
        Error,
    >)
        ensures
            match opened {
                Ok(store) => store@.wf() && opened_build(builds_of(records@)) == Some(
                    store@.build,
                ) && store@.entries == entries.deep_view(),
                Err(e) => opened_build(builds_of(records@)) is None && e == Error::Corrupt,
            },
    {
        if records.len() == 0 {
            Ok(Store { schema: StoreSchema::new(CURRENT_BUILD), entries })
        } else if records.len() == 1 && records[0].build() >= FIRST_BUILD {
            Ok(Store { schema: records[0], entries })
        } else {
            Err(Error::Corrupt)
        }
    }

    /// The layout number in the schema record.
    pub fn current_version(&self) -> (build: i32)
        ensures
            build == self@.build,
    {
        self.schema.build()
    }

    /// The ledger, oldest record first.
    pub fn entries(&self) -> (entries: &Vec<LedgerEntry>)
        ensures
            entries.deep_view() == self@.entries,
    {
        &self.entries
    }

    /// Brings an older store to the current layout.
    ///
    /// Returns the steps to apply, in order, each named by the layout it
    /// produces; none when the store is current. A store newer than this
    /// code is refused and left as it was.
    pub fn migrate_if_needed(&mut self) -> (steps: Result<Vec<i32>, Error>)
        requires
            old(self)@.wf(),
        ensures
            match steps {
                Ok(applied) => old(self)@.migrated() == Some(final(self)@) && applied@
                    == pending_steps(old(self)@.build),
                Err(e) => old(self)@.migrated() is None && e == Error::UnsupportedSchema
                    && final(self)@ == old(self)@,
            },
    {
        let stored = self.schema.build();
        if stored > CURRENT_BUILD {
            return Err(Error::UnsupportedSchema);
        }
        let mut applied: Vec<i32> = Vec::new();
        let mut build: i32 = stored;
        while build < CURRENT_BUILD
            invariant
                FIRST_BUILD <= stored <= build <= CURRENT_BUILD,
                applied@ == Seq::new((build - stored) as nat, |k: int| (stored + 1 + k) as i32),
            decreases CURRENT_BUILD - build,
        {
            build = build + 1;
            applied.push(build);
        }
        self.schema = StoreSchema::new(CURRENT_BUILD);
        Ok(applied)
    }

    /// Whether `identity` was announced within the `window_days` days before
    /// `now`: whether some entry for it is not older than the window's start.
    pub fn was_announced_recently(&self, identity: &str, window_days: i64, now: i64) -> (recent:
        bool)
        ensures
            recent == announced_recently(
                self@.entries,
                identity@,
                window_days as int,
                now as int,
            ),
    {
        let wanted = identity.to_owned();
        let mut i: usize = 0;
        while i < self.entries.len()
            invariant
                i <= self.entries.len(),
                wanted@ == identity@,
                forall|k: int|
                    0 <= k < i ==> !((#[trigger] self@.entries[k]).identity == identity@
                        && self@.entries[k].announced_at >= window_start(
                        window_days as int,
                        now as int,
                    )),
            decreases self.entries.len() - i,
        {
            let entry = &self.entries[i];
            if entry.identity == wanted && in_window(entry.announced_at, window_days, now) {
                assert(self@.entries[i as int] == entry@);
                return true;
            }
            assert(self@.entries[i as int] == entry@);
            i += 1;
        }
        false
    }

    /// Appends the record that `identity` was announced at `now`.
    pub fn record(&mut self, identity: &str, now: i64)
        ensures
            final(self)@.build == old(self)@.build,
            final(self)@.entries == old(self)@.entries.push(
                EntryView { identity: identity@, announced_at: now as int },
            ),
    {
        self.entries.push(LedgerEntry::new(identity, now));
    }

    /// Deletes the entries strictly older than `cutoff`; the others stay in
    /// their order.
    pub fn prune_older_than(&mut self, cutoff: i64)
        ensures
            final(self)@.build == old(self)@.build,
            final(self)@.entries == old(self)@.entries.filter(not_older_than(cutoff as int)),
    {
        let ghost before = self@.entries;
        let mut kept: Vec<LedgerEntry> = Vec::new();
        let mut i: usize = 0;
        proof {
            reveal(Seq::filter);
            assert(before.take(0).filter(not_older_than(cutoff as int)) =~= kept.deep_view());
        }
        while i < self.entries.len()
            invariant
                i <= self.entries.len(),
                self@.entries == before,
                kept.deep_view() == before.take(i as int).filter(not_older_than(cutoff as int)),
            decreases self.entries.len() - i,
        {
            let entry = &self.entries[i];
            proof {
                assert(before[i as int] == entry@);
                assert(before.take(i + 1) =~= before.take(i as int).push(entry@));
                before.take(i as int).lemma_filter_push(entry@, not_older_than(cutoff as int));
            }
            if entry.announced_at >= cutoff {
                let ghost prior = kept.deep_view();
                kept.push(entry.clone());
                assert(kept.deep_view() =~= prior.push(entry@));
            }
            i += 1;
        }
        assert(before.take(i as int) =~= before);
        self.entries = kept;
    }
}

/// Appending an entry adds exactly that entry's say to the window check.
pub proof fn lemma_recent_push(
    entries: Seq<EntryView>,
    entry: EntryView,
    identity: Seq<char>,
    window_days: int,
    now: int,
)
    ensures
        announced_recently(entries.push(entry), identity, window_days, now) <==> (
        announced_recently(entries, identity, window_days, now) || (entry.identity == identity
            && entry.announced_at >= window_start(window_days, now))),
{
    let longer = entries.push(entry);
    if announced_recently(entries, identity, window_days, now) {
        let i = choose|i: int|
            0 <= i < entries.len() && (#[trigger] entries[i]).identity == identity
                && entries[i].announced_at >= window_start(window_days, now);
        assert(longer[i] == entries[i]);
    }
    if entry.identity == identity && entry.announced_at >= window_start(window_days, now) {
        assert(longer[entries.len() as int] == entry);
    }
    if announced_recently(longer, identity, window_days, now) {
        let i = choose|i: int|
            0 <= i < longer.len() && (#[trigger] longer[i]).identity == identity
                && longer[i].announced_at >= window_start(window_days, now);
        if i < entries.len() {
            assert(entries[i] == longer[i]);
        }
    }
}

/// Of several entries for one identity only the latest counts: the latest
/// announcement is the greatest instant among the identity's entries, and
/// there is none exactly when the identity has no entry.
pub proof fn law_latest_is_maximum(entries: Seq<EntryView>, identity: Seq<char>)
    ensures
        match latest_announcement(entries, identity) {
            None => forall|i: int|
                0 <= i < entries.len() ==> (#[trigger] entries[i]).identity != identity,
            Some(latest) => (exists|i: int|
                0 <= i < entries.len() && (#[trigger] entries[i]).identity == identity
                    && entries[i].announced_at == latest) && (forall|i: int|
                0 <= i < entries.len() && (#[trigger] entries[i]).identity == identity
                    ==> entries[i].announced_at <= latest),
        },
    decreases entries.len(),
{
    if entries.len() > 0 {
        let front = entries.drop_last();
        let last = entries.last();
        law_latest_is_maximum(front, identity);
        assert forall|i: int| 0 <= i < front.len() implies front[i] == entries[i] by {}
        match latest_announcement(entries, identity) {
            None => {
                assert forall|i: int| 0 <= i < entries.len() implies (
                #[trigger] entries[i]).identity != identity by {
                    if i < front.len() {
                        assert(front[i] == entries[i]);
                    }
                }
            },
            Some(latest) => {
                if last.identity == identity && latest == last.announced_at {
                    assert(entries[entries.len() - 1] == last);
                } else {
                    let i = choose|i: int|
                        0 <= i < front.len() && (#[trigger] front[i]).identity == identity
                            && front[i].announced_at == latest;
                    assert(entries[i] == front[i]);
                }
                assert forall|i: int|
                    0 <= i < entries.len() && (#[trigger] entries[i]).identity
                        == identity implies entries[i].announced_at <= latest by {
                    if i < front.len() {
                        assert(front[i] == entries[i]);
                    }
                }
            },
        }
    }
}

/// The window check looks at the latest announcement alone: an identity was
/// announced recently exactly when it has a latest announcement and that one
/// is not older than the window's start.
pub proof fn law_latest_decides(
    entries: Seq<EntryView>,
    identity: Seq<char>,
    window_days: int,
    now: int,
)
    ensures
        announced_recently(entries, identity, window_days, now) <==> (latest_announcement(
            entries,
            identity,
        ) matches Some(latest) && latest >= window_start(window_days, now)),
{
    law_latest_is_maximum(entries, identity);
}

/// The no-repeat window. Let `identity` be recorded at `at`, after records
/// of it that are not later than `at`, and let no record of it follow. Then
/// it counts as announced recently exactly while `now` is at most
/// `window_days` days after `at`; earlier instants `now` included.
pub proof fn law_window(
    before: Seq<EntryView>,
    after: Seq<EntryView>,
    identity: Seq<char>,
    at: int,
    window_days: int,
    now: int,
)
    requires
        forall|i: int|
            0 <= i < before.len() && (#[trigger] before[i]).identity == identity
                ==> before[i].announced_at <= at,
        forall|i: int| 0 <= i < after.len() ==> (#[trigger] after[i]).identity != identity,
    ensures
        announced_recently(
            before.push(EntryView { identity, announced_at: at }) + after,
            identity,
            window_days,
            now,
        ) <==> now <= at + window_days * SECONDS_PER_DAY,
{
    let recorded = before.push(EntryView { identity, announced_at: at });
    let ledger = recorded + after;
    if now <= at + window_days * SECONDS_PER_DAY {
        assert(ledger[before.len() as int] == recorded[before.len() as int]);
    }
    if announced_recently(ledger, identity, window_days, now) {
        let i = choose|i: int|
            0 <= i < ledger.len() && (#[trigger] ledger[i]).identity == identity
                && ledger[i].announced_at >= window_start(window_days, now);
        if i < before.len() {
            assert(ledger[i] == before[i]);
        } else if i == before.len() {
            assert(ledger[i] == recorded[i]);
        } else {
            assert(ledger[i] == after[i - recorded.len()]);
        }
    }
}

/// Pruning is safe for every window that starts at or after the cutoff: the
/// window check answers after pruning as it did before.
pub proof fn law_prune_keeps_window(
    entries: Seq<EntryView>,
    cutoff: int,
    identity: Seq<char>,
    window_days: int,
    now: int,
)
    requires
        cutoff <= window_start(window_days, now),
    ensures
        announced_recently(
            entries.filter(not_older_than(cutoff)),
            identity,
            window_days,
            now,
        ) == announced_recently(entries, identity, window_days, now),
    decreases entries.len(),
{
    if entries.len() == 0 {
        reveal(Seq::filter);
    } else {
        let front = entries.drop_last();
        let last = entries.last();
        assert(entries =~= front.push(last));
        law_prune_keeps_window(front, cutoff, identity, window_days, now);
        front.lemma_filter_push(last, not_older_than(cutoff));
        lemma_recent_push(front, last, identity, window_days, now);
        lemma_recent_push(
            front.filter(not_older_than(cutoff)),
            last,
            identity,
            window_days,
            now,
        );
    }
}

/// Migration settles: a migrated store has no step pending, and migrating
/// it again leaves it as it is.
pub proof fn law_migration_settles(store: StoreView)
    ensures
        store.migrated() matches Some(current) ==> current.migrated() == Some(current)
            && pending_steps(current.build) == Seq::<i32>::empty(),
{
    assert(pending_steps(CURRENT_BUILD as int) =~= Seq::<i32>::empty());
}

} // verus!
