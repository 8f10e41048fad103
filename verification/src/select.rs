//! The selection pipeline: which candidates of a batch may be announced.

use crate::candidate::{Candidate, CandidateView};
use crate::store::{announced_recently, lemma_recent_push, EntryView, Store, SECONDS_PER_DAY};
use vstd::prelude::*;

verus! {

/// Whether no earlier candidate of the batch has the identity of the one at
/// position `i`.
pub open spec fn first_occurrence(candidates: Seq<CandidateView>, i: int) -> bool {
    forall|j: int| 0 <= j < i ==> (#[trigger] candidates[j]).identity != candidates[i].identity
}

/// Whether the candidate at position `i` may be announced: it is the first
/// of its identity in the batch, and the ledger does not hold that identity
/// inside the window.
pub open spec fn is_eligible(
    candidates: Seq<CandidateView>,
    entries: Seq<EntryView>,
    window_days: int,
    now: int,
    i: int,
) -> bool {
    first_occurrence(candidates, i) && !announced_recently(
        entries,
        candidates[i].identity,
        window_days,
        now,
    )
}

/// The eligible positions below `n`, in rising order.
pub open spec fn eligible_positions(
    candidates: Seq<CandidateView>,
    entries: Seq<EntryView>,
    window_days: int,
    now: int,
    n: int,
) -> Seq<int>
    decreases n,
{
    if n <= 0 {
        Seq::empty()
    } else {
        let below = eligible_positions(candidates, entries, window_days, now, n - 1);
        if is_eligible(candidates, entries, window_days, now, n - 1) {
            below.push(n - 1)
        } else {
            below
        }
    }
}

/// The identities of the candidates below `n` that are not eligible, each
/// once, in the order in which the batch first holds them back.
pub open spec fn suppressed_identities(
    candidates: Seq<CandidateView>,
    entries: Seq<EntryView>,
    window_days: int,
    now: int,
    n: int,
) -> Seq<Seq<char>>
    decreases n,
{
    if n <= 0 {
        Seq::empty()
    } else {
        let below = suppressed_identities(candidates, entries, window_days, now, n - 1);
        let identity = candidates[n - 1].identity;
        if is_eligible(candidates, entries, window_days, now, n - 1) || below.contains(identity) {
            below
        } else {
            below.push(identity)
        }
    }
}

/// The candidate at a position of the batch.
pub open spec fn candidate_at(candidates: Seq<CandidateView>) -> spec_fn(int) -> CandidateView {
    |i: int| candidates[i]
}

/// The partition of a batch.
#[derive(Debug, PartialEq, Eq)]
pub struct Selection {
    /// The candidates to announce, in the order of the batch.
    pub eligible: Vec<Candidate>,
    /// The identities held back, each once.
    pub suppressed: Vec<String>,
}

/// The mathematical value of a [`Selection`].
pub struct SelectionView {
    pub eligible: Seq<CandidateView>,
    pub suppressed: Seq<Seq<char>>,
}

impl SelectionView {
    /// The identities held back, as a set.
    pub open spec fn suppressed_set(self) -> Set<Seq<char>> {
        self.suppressed.to_set()
    }
}

impl View for Selection {
    type V = SelectionView;

    open spec fn view(&self) -> SelectionView {
        SelectionView {
            eligible: self.eligible.deep_view(),
            suppressed: self.suppressed.deep_view(),
        }
    }
}

/// The partition of `candidates` against the ledger `entries`: the
/// candidates at the eligible positions, and the identities of the others.
pub open spec fn selection_of(
    candidates: Seq<CandidateView>,
    entries: Seq<EntryView>,
    window_days: int,
    now: int,
) -> SelectionView {
    SelectionView {
        eligible: eligible_positions(
            candidates,
            entries,
            window_days,
            now,
            candidates.len() as int,
        ).map_values(candidate_at(candidates)),
        suppressed: suppressed_identities(
            candidates,
            entries,
            window_days,
            now,
            candidates.len() as int,
        ),
    }
}

fn seen_before(candidates: &Vec<Candidate>, i: usize) -> (seen: bool)
    requires
        i < candidates.len(),
    ensures
        seen == !first_occurrence(candidates.deep_view(), i as int),
{
    let ghost batch = candidates.deep_view();
    let mut j: usize = 0;
    while j < i
        invariant
            j <= i < candidates.len(),
            batch == candidates.deep_view(),
            forall|k: int| 0 <= k < j ==> (#[trigger] batch[k]).identity != batch[i as int].identity,
        decreases i - j,
    {
        assert(batch[j as int] == candidates[j as int]@);
        assert(batch[i as int] == candidates[i as int]@);
        if *candidates[j].identity() == *candidates[i].identity() {
            return true;
        }
        j += 1;
    }
    false
}

fn holds(names: &Vec<String>, name: &String) -> (found: bool)
    ensures
        found == names.deep_view().contains(name@),
{
    let ghost held = names.deep_view();
    let mut i: usize = 0;
    while i < names.len()
        invariant
            i <= names.len(),
            held == names.deep_view(),
            forall|k: int| 0 <= k < i ==> held[k] != name@,
        decreases names.len() - i,
    {
        assert(held[i as int] == names[i as int]@);
        if names[i] == *name {
            return true;
        }
        i += 1;
    }
    false
}

/// Partitions a batch of candidates against the store's ledger.
///
/// A candidate is eligible when the ledger does not hold its identity inside
/// the window of `window_days` days before `now` and no earlier candidate of
/// the batch has its identity. The eligible candidates keep the order of the
/// batch. The store is only read.
pub fn select(candidates: &Vec<Candidate>, store: &Store, window_days: i64, now: i64) -> (selection:
    Selection)
    ensures
        selection@ == selection_of(
            candidates.deep_view(),
            store@.entries,
            window_days as int,
            now as int,
        ),
{
    let ghost batch = candidates.deep_view();
    let ghost entries = store@.entries;
    let mut eligible: Vec<Candidate> = Vec::new();
    let mut suppressed: Vec<String> = Vec::new();
    let mut i: usize = 0;
    proof {
        assert(eligible.deep_view() =~= eligible_positions(
            batch,
            entries,
            window_days as int,
            now as int,
            0,
        ).map_values(candidate_at(batch)));
        assert(suppressed.deep_view() =~= suppressed_identities(
            batch,
            entries,
            window_days as int,
            now as int,
            0,
        ));
    }
    while i < candidates.len()
        invariant
            i <= candidates.len(),
            batch == candidates.deep_view(),
            entries == store@.entries,
            eligible.deep_view() == eligible_positions(
                batch,
                entries,
                window_days as int,
                now as int,
                i as int,
            ).map_values(candidate_at(batch)),
            suppressed.deep_view() == suppressed_identities(
                batch,
                entries,
                window_days as int,
                now as int,
                i as int,
            ),
        decreases candidates.len() - i,
    {
        let candidate = &candidates[i];
        assert(batch[i as int] == candidate@);
        let recent = store.was_announced_recently(
            candidate.identity().as_str(),
            window_days,
            now,
        );
        let repeated = seen_before(candidates, i);
        let ghost positions = eligible_positions(
            batch,
            entries,
            window_days as int,
            now as int,
            i as int,
        );
        if !recent && !repeated {
            let ghost chosen = eligible.deep_view();
            eligible.push(candidate.clone());
            assert(eligible.deep_view() =~= chosen.push(candidate@));
            assert(positions.push(i as int).map_values(candidate_at(batch)) =~= chosen.push(
                candidate@,
            ));
        } else if !holds(&suppressed, candidate.identity()) {
            let ghost held = suppressed.deep_view();
            suppressed.push(candidate.identity().clone());
            assert(suppressed.deep_view() =~= held.push(candidate@.identity));
        }
        i += 1;
    }
    Selection { eligible, suppressed }
}

/// What the eligible positions below `n` are: positions below `n` that are
/// eligible, in strictly rising order, and none that is eligible is missing.
pub proof fn lemma_eligible_positions(
    candidates: Seq<CandidateView>,
    entries: Seq<EntryView>,
    window_days: int,
    now: int,
    n: int,
)
    requires
        0 <= n <= candidates.len(),
    ensures
        forall|k: int|
            #![trigger eligible_positions(candidates, entries, window_days, now, n)[k]]
            0 <= k < eligible_positions(candidates, entries, window_days, now, n).len() ==> {
                let at = eligible_positions(candidates, entries, window_days, now, n)[k];
                0 <= at < n && is_eligible(candidates, entries, window_days, now, at)
            },
        forall|a: int, b: int|
            #![trigger eligible_positions(candidates, entries, window_days, now, n)[a], eligible_positions(candidates, entries, window_days, now, n)[b]]
            0 <= a < b < eligible_positions(candidates, entries, window_days, now, n).len()
                ==> eligible_positions(candidates, entries, window_days, now, n)[a]
                < eligible_positions(candidates, entries, window_days, now, n)[b],
        forall|i: int|
            0 <= i < n && #[trigger] is_eligible(candidates, entries, window_days, now, i)
                ==> eligible_positions(candidates, entries, window_days, now, n).contains(i),
    decreases n,
{
    if n > 0 {
        lemma_eligible_positions(candidates, entries, window_days, now, n - 1);
        let below = eligible_positions(candidates, entries, window_days, now, n - 1);
        let all = eligible_positions(candidates, entries, window_days, now, n);
        assert forall|i: int|
            0 <= i < n && #[trigger] is_eligible(
                candidates,
                entries,
                window_days,
                now,
                i,
            ) implies all.contains(i) by {
            if i < n - 1 {
                let k = choose|k: int| 0 <= k < below.len() && below[k] == i;
                assert(all[k] == i);
            } else {
                assert(all[all.len() - 1] == i);
            }
        }
    }
}

/// What the suppressed identities below `n` are: each stands once, and an
/// identity stands among them exactly when some candidate below `n` has it
/// and is not eligible.
pub proof fn lemma_suppressed_identities(
    candidates: Seq<CandidateView>,
    entries: Seq<EntryView>,
    window_days: int,
    now: int,
    n: int,
)
    requires
        0 <= n <= candidates.len(),
    ensures
        suppressed_identities(candidates, entries, window_days, now, n).no_duplicates(),
        forall|identity: Seq<char>|
            #![trigger suppressed_identities(candidates, entries, window_days, now, n).contains(identity)]
            suppressed_identities(candidates, entries, window_days, now, n).contains(identity)
                <==> exists|i: int|
                0 <= i < n && (#[trigger] candidates[i]).identity == identity && !is_eligible(
                    candidates,
                    entries,
                    window_days,
                    now,
                    i,
                ),
    decreases n,
{
    if n > 0 {
        lemma_suppressed_identities(candidates, entries, window_days, now, n - 1);
        let below = suppressed_identities(candidates, entries, window_days, now, n - 1);
        let all = suppressed_identities(candidates, entries, window_days, now, n);
        assert forall|identity: Seq<char>| all.contains(identity) implies exists|i: int|
            0 <= i < n && (#[trigger] candidates[i]).identity == identity && !is_eligible(
                candidates,
                entries,
                window_days,
                now,
                i,
            ) by {
            let k = choose|k: int| 0 <= k < all.len() && all[k] == identity;
            if k < below.len() {
                assert(below[k] == identity);
                assert(below.contains(identity));
                let i = choose|i: int|
                    0 <= i < n - 1 && (#[trigger] candidates[i]).identity == identity
                        && !is_eligible(candidates, entries, window_days, now, i);
                assert(0 <= i < n && candidates[i].identity == identity);
            } else {
                assert(candidates[n - 1].identity == identity);
            }
        }
        assert forall|identity: Seq<char>|
            (exists|i: int|
                0 <= i < n && (#[trigger] candidates[i]).identity == identity && !is_eligible(
                    candidates,
                    entries,
                    window_days,
                    now,
                    i,
                )) implies all.contains(identity) by {
            let i = choose|i: int|
                0 <= i < n && (#[trigger] candidates[i]).identity == identity && !is_eligible(
                    candidates,
                    entries,
                    window_days,
                    now,
                    i,
                );
            if i < n - 1 {
                assert(below.contains(identity));
                let k = choose|k: int| 0 <= k < below.len() && below[k] == identity;
                assert(all[k] == identity);
            } else if below.contains(identity) {
                let k = choose|k: int| 0 <= k < below.len() && below[k] == identity;
                assert(all[k] == identity);
            } else {
                assert(all[all.len() - 1] == identity);
            }
        }
    }
}

/// Order preservation. The eligible candidates are the candidates at the
/// eligible positions of the batch, in the order of the batch: the positions
/// rise strictly, each is eligible, and no eligible position is left out.
pub proof fn law_order_preserved(
    candidates: Seq<CandidateView>,
    entries: Seq<EntryView>,
    window_days: int,
    now: int,
)
    ensures
        ({
            let chosen = selection_of(candidates, entries, window_days, now).eligible;
            let positions = eligible_positions(
                candidates,
                entries,
                window_days,
                now,
                candidates.len() as int,
            );
            &&& chosen.len() == positions.len()
            &&& forall|k: int|
                #![trigger positions[k]]
                0 <= k < positions.len() ==> 0 <= positions[k] < candidates.len()
                    && chosen[k] == candidates[positions[k]] && is_eligible(
                    candidates,
                    entries,
                    window_days,
                    now,
                    positions[k],
                )
            &&& forall|a: int, b: int|
                #![trigger positions[a], positions[b]]
                0 <= a < b < positions.len() ==> positions[a] < positions[b]
            &&& forall|i: int|
                0 <= i < candidates.len() && #[trigger] is_eligible(
                    candidates,
                    entries,
                    window_days,
                    now,
                    i,
                ) ==> positions.contains(i)
        }),
{
    lemma_eligible_positions(candidates, entries, window_days, now, candidates.len() as int);
}

/// Deduplication inside a batch. No two eligible candidates share an
/// identity, and a candidate whose identity stood earlier in the batch is
/// not eligible: its identity is among the suppressed.
pub proof fn law_in_batch_dedup(
    candidates: Seq<CandidateView>,
    entries: Seq<EntryView>,
    window_days: int,
    now: int,
)
    ensures
        ({
            let selection = selection_of(candidates, entries, window_days, now);
            &&& forall|a: int, b: int|
                #![trigger selection.eligible[a], selection.eligible[b]]
                0 <= a < b < selection.eligible.len() ==> selection.eligible[a].identity
                    != selection.eligible[b].identity
            &&& forall|i: int, j: int|
                #![trigger candidates[i], candidates[j]]
                0 <= i < j < candidates.len() && candidates[i].identity == candidates[j].identity
                    ==> !is_eligible(candidates, entries, window_days, now, j)
                    && selection.suppressed.contains(candidates[j].identity)
        }),
{
    let n = candidates.len() as int;
    let selection = selection_of(candidates, entries, window_days, now);
    let positions = eligible_positions(candidates, entries, window_days, now, n);
    lemma_eligible_positions(candidates, entries, window_days, now, n);
    lemma_suppressed_identities(candidates, entries, window_days, now, n);
    assert forall|a: int, b: int|
        #![trigger selection.eligible[a], selection.eligible[b]]
        0 <= a < b < selection.eligible.len() implies selection.eligible[a].identity
        != selection.eligible[b].identity by {
        assert(positions[a] < positions[b]);
        assert(first_occurrence(candidates, positions[b]));
        assert(candidates[positions[a]].identity != candidates[positions[b]].identity);
    }
    assert forall|i: int, j: int|
        #![trigger candidates[i], candidates[j]]
        0 <= i < j < candidates.len() && candidates[i].identity
            == candidates[j].identity implies !is_eligible(candidates, entries, window_days, now, j)
        && selection.suppressed.contains(candidates[j].identity) by {
        assert(!first_occurrence(candidates, j));
    }
}

/// The two parts cover the batch: every candidate is eligible or has its
/// identity among the suppressed, the suppressed hold each identity once,
/// and they hold no identity but that of a candidate that is not eligible.
pub proof fn law_partition(
    candidates: Seq<CandidateView>,
    entries: Seq<EntryView>,
    window_days: int,
    now: int,
)
    ensures
        ({
            let selection = selection_of(candidates, entries, window_days, now);
            &&& selection.suppressed.no_duplicates()
            &&& forall|identity: Seq<char>|
                #![trigger selection.suppressed_set().contains(identity)]
                selection.suppressed_set().contains(identity) <==> exists|i: int|
                    0 <= i < candidates.len() && (#[trigger] candidates[i]).identity == identity
                        && !is_eligible(candidates, entries, window_days, now, i)
        }),
{
    lemma_suppressed_identities(candidates, entries, window_days, now, candidates.len() as int);
}

/// The no-repeat guarantee. Once `identity` is recorded at `at`, no
/// candidate with that identity is eligible at any `now` up to `window_days`
/// days after `at`, whatever else the ledger holds.
pub proof fn law_recorded_is_suppressed(
    candidates: Seq<CandidateView>,
    entries: Seq<EntryView>,
    identity: Seq<char>,
    at: int,
    window_days: int,
    now: int,
    i: int,
)
    requires
        0 <= i < candidates.len(),
        candidates[i].identity == identity,
        now <= at + window_days * SECONDS_PER_DAY,
    ensures
        !is_eligible(
            candidates,
            entries.push(EntryView { identity, announced_at: at }),
            window_days,
            now,
            i,
        ),
{
    lemma_recent_push(
        entries,
        EntryView { identity, announced_at: at },
        identity,
        window_days,
        now,
    );
}

/// Selection is repeatable: two selections from equal batches against equal
/// ledgers, with the same window at the same instant, are equal.
pub proof fn law_selection_repeats(
    first_batch: Seq<CandidateView>,
    second_batch: Seq<CandidateView>,
    first_entries: Seq<EntryView>,
    second_entries: Seq<EntryView>,
    window_days: int,
    now: int,
)
    requires
        first_batch == second_batch,
        first_entries == second_entries,
    ensures
        selection_of(first_batch, first_entries, window_days, now) == selection_of(
            second_batch,
            second_entries,
            window_days,
            now,
        ),
{
}

} // verus!
