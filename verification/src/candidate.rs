//! Candidates and the messages announced for them.

use crate::error::Error;
use vstd::prelude::*;
use vstd::string::*;

verus! {

/// A trending item as the source reported it in one run.
#[derive(Debug, PartialEq, Eq)]
pub struct Candidate {
    identity: String,
    url: String,
    description: String,
    discovered_at: i64,
}

/// The mathematical value of a [`Candidate`].
pub struct CandidateView {
    pub identity: Seq<char>,
    pub url: Seq<char>,
    pub description: Seq<char>,
    pub discovered_at: int,
}

impl CandidateView {
    /// A candidate can be announced when it has an identity and a link.
    pub open spec fn postable(self) -> bool {
        self.identity.len() > 0 && self.url.len() > 0
    }

    /// The announcement: identity, " - ", description, " ", link.
    pub open spec fn message(self) -> Seq<char> {
        self.identity + seq![' ', '-', ' '] + self.description + seq![' '] + self.url
    }
}

impl View for Candidate {
    type V = CandidateView;

    closed spec fn view(&self) -> CandidateView {
        CandidateView {
            identity: self.identity@,
            url: self.url@,
            description: self.description@,
            discovered_at: self.discovered_at as int,
        }
    }
}

impl DeepView for Candidate {
    type V = CandidateView;

    open spec fn deep_view(&self) -> CandidateView {
        self@
    }
}

impl Clone for Candidate {
    fn clone(&self) -> (copy: Candidate)
        ensures
            copy@ == self@,
    {
        Candidate {
            identity: self.identity.clone(),
            url: self.url.clone(),
            description: self.description.clone(),
            discovered_at: self.discovered_at,
        }
    }
}

impl Candidate {
    /// A candidate with the given fields, observed at `discovered_at`
    /// (seconds since the Unix epoch, UTC).
    pub fn new(identity: &str, url: &str, description: &str, discovered_at: i64) -> (candidate:
        Candidate)
        ensures
            candidate@ == (CandidateView {
                identity: identity@,
                url: url@,
                description: description@,
                discovered_at: discovered_at as int,
            }),
    {
        Candidate {
            identity: identity.to_owned(),
            url: url.to_owned(),
            description: description.to_owned(),
            discovered_at,
        }
    }

    /// The stable name under which the item is remembered.
    pub fn identity(&self) -> (identity: &String)
        ensures
            identity@ == self@.identity,
    {
        &self.identity
    }

    /// The link shown with the item.
    pub fn url(&self) -> (url: &String)
        ensures
            url@ == self@.url,
    {
        &self.url
    }

    /// The free text that describes the item; may be empty.
    pub fn description(&self) -> (description: &String)
        ensures
            description@ == self@.description,
    {
        &self.description
    }

    /// When this run observed the item, in seconds since the Unix epoch.
    pub fn discovered_at(&self) -> (instant: i64)
        ensures
            instant == self@.discovered_at,
    {
        self.discovered_at
    }

    /// The message announced for this candidate.
    ///
    /// The three parts are joined as they are, so an empty description leaves
    /// two spaces between the dash and the link. A candidate without identity
    /// or without link is refused.
    pub fn format(&self) -> (message: Result<String, Error>)
        ensures
            match message {
                Ok(text) => self@.postable() && text@ == self@.message(),
                Err(e) => !self@.postable() && e == Error::InvalidCandidate,
            },
    {
        if self.identity.as_str().is_empty() || self.url.as_str().is_empty() {
            return Err(Error::InvalidCandidate);
        }
        let mut text = self.identity.clone();
        proof {
            reveal_strlit(" - ");
            reveal_strlit(" ");
            assert(" - "@ =~= seq![' ', '-', ' ']);
            assert(" "@ =~= seq![' ']);
        }
        text.append(" - ");
        text.append(self.description.as_str());
        text.append(" ");
        text.append(self.url.as_str());
        Ok(text)
    }
}

} // verus!
