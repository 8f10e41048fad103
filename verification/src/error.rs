//! The kinds of failure a run can meet.

use vstd::prelude::*;

verus! {

/// Every failure a run distinguishes.
#[derive(Clone, Copy, Debug, PartialEq, Eq, Structural)]
pub enum Error {
    /// The backing store, or its schema record, does not exist.
    NotFound,
    /// The backing store holds something that is no valid store.
    Corrupt,
    /// Reading or writing the backing store failed.
    IoFailure,
    /// The backing store cannot be used for a trustworthy check.
    StoreUnavailable,
    /// The store was written by a newer layout than this code knows.
    UnsupportedSchema,
    /// The trend source was unreachable or answered with a malformed body.
    FetchFailed,
    /// A candidate lacks an identity or a link.
    InvalidCandidate,
    /// The publisher refused a message.
    PublishFailed,
}

impl Error {
    /// Whether this kind concerns a single candidate only.
    pub open spec fn spec_is_per_item(self) -> bool {
        self == Error::InvalidCandidate || self == Error::PublishFailed
    }

    /// Whether this kind ends the run: everything does, except a failure
    /// that concerns one candidate.
    pub open spec fn spec_is_fatal(self) -> bool {
        !self.spec_is_per_item()
    }

    /// Whether the run must stop on this failure.
    #[verifier::when_used_as_spec(spec_is_fatal)]
    pub fn is_fatal(self) -> (fatal: bool)
        ensures
            fatal == self.spec_is_fatal(),
    {
        match self {
            Error::InvalidCandidate | Error::PublishFailed => false,
            _ => true,
        }
    }
}

} // verus!
