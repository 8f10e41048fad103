use rust_trends::candidate::Candidate;
use rust_trends::error::Error;
use rust_trends::pipeline::{compose, Post};
use rust_trends::select::select;
use rust_trends::store::{LedgerEntry, Store};

#[test]
fn per_item_failures_do_not_end_the_run() {
    assert!(!Error::InvalidCandidate.is_fatal());
    assert!(!Error::PublishFailed.is_fatal());
}

#[test]
fn all_other_failures_end_the_run() {
    assert!(Error::NotFound.is_fatal());
    assert!(Error::Corrupt.is_fatal());
    assert!(Error::IoFailure.is_fatal());
    assert!(Error::StoreUnavailable.is_fatal());
    assert!(Error::UnsupportedSchema.is_fatal());
    assert!(Error::FetchFailed.is_fatal());
}

#[test]
fn compose_formats_each_candidate_in_order() {
    let batch = vec![
        Candidate::new("a/b", "https://a", "first", 0),
        Candidate::new("", "https://nameless", "second", 0),
        Candidate::new("c/d", "https://c", "", 0),
        Candidate::new("e/f", "", "no link", 0),
    ];
    let drafts = compose(&batch);
    assert_eq!(
        drafts,
        vec![
            Ok(Post { identity: "a/b".to_string(), message: "a/b - first https://a".to_string() }),
            Err(Error::InvalidCandidate),
            Ok(Post { identity: "c/d".to_string(), message: "c/d -  https://c".to_string() }),
            Err(Error::InvalidCandidate),
        ]
    );
}

#[test]
fn compose_of_nothing_is_nothing() {
    assert!(compose(&vec![]).is_empty());
}

#[test]
fn published_post_is_recorded() {
    let mut store = Store::new();
    assert_eq!(store.settle("a/b", Ok(()), 50), Ok(()));
    assert_eq!(store.entries().len(), 1);
    assert_eq!(store.entries()[0], LedgerEntry::new("a/b", 50));
    assert!(store.was_announced_recently("a/b", 14, 50));
}

#[test]
fn refused_post_is_not_recorded_and_the_run_goes_on() {
    let mut store = Store::new();
    assert_eq!(store.settle("a/b", Err(Error::PublishFailed), 50), Ok(()));
    assert!(store.entries().is_empty());
    assert!(!store.was_announced_recently("a/b", 14, 50));
}

#[test]
fn fatal_failure_is_not_recorded_and_ends_the_run() {
    let mut store = Store::new();
    assert_eq!(
        store.settle("a/b", Err(Error::StoreUnavailable), 50),
        Err(Error::StoreUnavailable)
    );
    assert!(store.entries().is_empty());
}

#[test]
fn a_whole_run_announces_each_item_once() {
    let batch = vec![
        Candidate::new("a/b", "https://a", "first", 100),
        Candidate::new("c/d", "https://c", "second", 100),
    ];
    let mut store = Store::new();
    let selection = select(&batch, &store, 14, 100);
    let mut published = Vec::new();
    for draft in compose(&selection.eligible) {
        let post = draft.unwrap();
        let outcome = if post.identity == "c/d" { Err(Error::PublishFailed) } else { Ok(()) };
        if outcome.is_ok() {
            published.push(post.message.clone());
        }
        assert_eq!(store.settle(&post.identity, outcome, 100), Ok(()));
    }
    assert_eq!(published, vec!["a/b - first https://a".to_string()]);

    let next = select(&batch, &store, 14, 200);
    assert_eq!(next.eligible, vec![Candidate::new("c/d", "https://c", "second", 100)]);
    assert_eq!(next.suppressed, vec!["a/b".to_string()]);
}
