//! The steps of a run between selection and the ledger: the messages to
//! publish, and what each publisher's answer means for the store.

use crate::candidate::{Candidate, CandidateView};
use crate::error::Error;
use crate::store::{EntryView, Store};
use vstd::prelude::*;

verus! {

/// A message ready for the publisher, with the identity it announces.
#[derive(Debug, PartialEq, Eq)]
pub struct Post {
    /// The identity to record once the message is out.
    pub identity: String,
    /// The text to publish.
    pub message: String,
}

/// The mathematical value of a [`Post`].
pub struct PostView {
    pub identity: Seq<char>,
    pub message: Seq<char>,
}

impl View for Post {
    type V = PostView;

    open spec fn view(&self) -> PostView {
        PostView { identity: self.identity@, message: self.message@ }
    }
}

/// What a run does with one eligible candidate: the post for it, or the
/// refusal of a candidate that cannot be announced.
pub open spec fn draft_of(candidate: CandidateView) -> Result<PostView, Error> {
    if candidate.postable() {
        Ok(PostView { identity: candidate.identity, message: candidate.message() })
    } else {
        Err(Error::InvalidCandidate)
    }
}

/// The value of a draft as [`compose`] hands it out.
pub open spec fn draft_view(draft: Result<Post, Error>) -> Result<PostView, Error> {
    match draft {
        Ok(post) => Ok(post@),
        Err(e) => Err(e),
    }
}

/// The store's answer to a publisher's outcome: the ledger with the
/// announcement appended where the message went out, the ledger as it was
/// where it did not.
pub open spec fn settled(
    entries: Seq<EntryView>,
    identity: Seq<char>,
    outcome: Result<(), Error>,
    now: int,
) -> Seq<EntryView> {
    if outcome is Ok {
        entries.push(EntryView { identity, announced_at: now })
    } else {
        entries
    }
}

/// Whether a run goes on after a publisher's outcome: it stops on a failure
/// that is fatal, and on no other.
pub open spec fn verdict_of(outcome: Result<(), Error>) -> Result<(), Error> {
    match outcome {
        Err(e) if e.spec_is_fatal() => Err(e),
        _ => Ok(()),
    }
}

/// Formats the eligible candidates, one draft for each in their order. A
/// candidate that cannot be announced yields its refusal and does not stop
/// the others.
pub fn compose(eligible: &Vec<Candidate>) -> (drafts: Vec<Result<Post, Error>>)
    ensures
        drafts.len() == eligible.len(),
        forall|i: int|
            0 <= i < eligible.len() ==> draft_view(#[trigger] drafts[i]) == draft_of(
                eligible[i]@,
            ),
{
    let mut drafts: Vec<Result<Post, Error>> = Vec::new();
    let mut i: usize = 0;
    while i < eligible.len()
        invariant
            i <= eligible.len(),
            drafts.len() == i,
            forall|k: int|
                0 <= k < i ==> draft_view(#[trigger] drafts[k]) == draft_of(eligible[k]@),
        decreases eligible.len() - i,
    {
        let candidate = &eligible[i];
        let draft = match candidate.format() {
            Ok(message) => Ok(Post { identity: candidate.identity().clone(), message }),
            Err(e) => Err(e),
        };
        drafts.push(draft);
        i += 1;
    }
    drafts
}

impl Store {
    /// Takes note of what the publisher answered for `identity`.
    ///
    /// The announcement is recorded at `now` when the message went out, and
    /// only then. The run goes on unless the failure is fatal.
    pub fn settle(&mut self, identity: &str, outcome: Result<(), Error>, now: i64) -> (verdict:
        Result<(), Error>)
        ensures
            final(self)@.build == old(self)@.build,
            final(self)@.entries == settled(old(self)@.entries, identity@, outcome, now as int),
            verdict == verdict_of(outcome),
    {
        match outcome {
            Ok(()) => {
                self.record(identity, now);
                Ok(())
            },
            Err(e) => {
                if e.is_fatal() {
                    Err(e)
                } else {
                    Ok(())
                }
            },
        }
    }
}

} // verus!
