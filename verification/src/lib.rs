//! Selection and deduplication core of a trending-repository announcer.
//!
//! A batch of trending candidates is partitioned into those that may be
//! announced and those that were announced too recently; the store keeps the
//! history of announcements and the version of its own layout.

pub mod candidate;
pub mod error;
pub mod pipeline;
pub mod select;
pub mod source;
pub mod store;

pub use candidate::Candidate;
pub use error::Error;
pub use pipeline::{compose, Post};
pub use select::{select, Selection};
pub use source::{parse_trends, search_url};
pub use store::{LedgerEntry, Store, StoreSchema};
