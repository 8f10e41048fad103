use rust_trends::candidate::Candidate;
use rust_trends::error::Error;
use rust_trends::source::{
    candidate_from_fields, parse_trends, search_url, trend_from_json, trends_from_json,
    GITHUB_API_URL,
};

const BODY: &str = r#"{
  "total_count": 2,
  "items": [
    {"full_name": "rust-lang/rust", "html_url": "https://github.com/rust-lang/rust",
     "description": "A language", "stargazers_count": 1},
    {"full_name": "a/b", "html_url": "https://github.com/a/b", "description": ""}
  ]
}"#;

#[test]
fn search_address() {
    assert_eq!(GITHUB_API_URL, "https://api.github.com");
    assert_eq!(
        search_url(),
        "https://api.github.com/search/repositories?q=language:rust&sort=stars&order=desc"
    );
}

#[test]
fn answer_is_read_in_source_order() {
    let trends = parse_trends(BODY, 77).unwrap();
    assert_eq!(
        trends,
        vec![
            Candidate::new("rust-lang/rust", "https://github.com/rust-lang/rust", "A language", 77),
            Candidate::new("a/b", "https://github.com/a/b", "", 77),
        ]
    );
}

#[test]
fn answer_without_items_holds_no_candidate() {
    assert_eq!(parse_trends(r#"{"items": []}"#, 0), Ok(vec![]));
}

#[test]
fn text_that_is_no_json_is_a_failed_fetch() {
    assert_eq!(parse_trends("", 0), Err(Error::FetchFailed));
    assert_eq!(parse_trends("{\"items\": [", 0), Err(Error::FetchFailed));
    assert_eq!(parse_trends("<html></html>", 0), Err(Error::FetchFailed));
}

#[test]
fn answer_of_another_shape_is_a_failed_fetch() {
    assert_eq!(parse_trends("[]", 0), Err(Error::FetchFailed));
    assert_eq!(parse_trends("{}", 0), Err(Error::FetchFailed));
    assert_eq!(parse_trends(r#"{"items": {"full_name": "a"}}"#, 0), Err(Error::FetchFailed));
    assert_eq!(parse_trends(r#"{"items": "a"}"#, 0), Err(Error::FetchFailed));
    assert_eq!(parse_trends(r#"{"Items": []}"#, 0), Err(Error::FetchFailed));
}

#[test]
fn item_without_a_field_is_a_failed_fetch() {
    let missing = r#"{"items": [{"full_name": "a/b", "html_url": "https://x"}]}"#;
    assert_eq!(parse_trends(missing, 0), Err(Error::FetchFailed));
    let null = r#"{"items": [{"full_name": "a/b", "html_url": "https://x", "description": null}]}"#;
    assert_eq!(parse_trends(null, 0), Err(Error::FetchFailed));
    let number = r#"{"items": [{"full_name": 3, "html_url": "https://x", "description": "d"}]}"#;
    assert_eq!(parse_trends(number, 0), Err(Error::FetchFailed));
    let later = r#"{"items": [
        {"full_name": "a/b", "html_url": "https://x", "description": "d"},
        {"full_name": "c/d", "description": "d"}]}"#;
    assert_eq!(parse_trends(later, 0), Err(Error::FetchFailed));
    assert_eq!(parse_trends(r#"{"items": [7]}"#, 0), Err(Error::FetchFailed));
}

#[test]
fn escapes_in_the_answer_are_resolved() {
    let body = r#"{"items": [{"full_name": "a\/b", "html_url": "https://x",
                   "description": "café \"quoted\""}]}"#;
    let trends = parse_trends(body, 1).unwrap();
    assert_eq!(trends.len(), 1);
    assert_eq!(trends[0].identity(), "a/b");
    assert_eq!(trends[0].description(), "caf\u{e9} \"quoted\"");
}

#[test]
fn one_item_is_read_from_its_three_fields() {
    let item: serde_json::Value = serde_json::from_str(
        r#"{"full_name": "a/b", "html_url": "https://x", "description": "d", "forks": 2}"#,
    )
    .unwrap();
    assert_eq!(trend_from_json(&item, 9), Ok(Candidate::new("a/b", "https://x", "d", 9)));
    let short: serde_json::Value = serde_json::from_str(r#"{"full_name": "a/b"}"#).unwrap();
    assert_eq!(trend_from_json(&short, 9), Err(Error::FetchFailed));
    let list: serde_json::Value = serde_json::from_str(r#"["full_name"]"#).unwrap();
    assert_eq!(trend_from_json(&list, 9), Err(Error::FetchFailed));
}

#[test]
fn parsed_document_is_read_from_its_items() {
    let document: serde_json::Value = serde_json::from_str(BODY).unwrap();
    let trends = trends_from_json(&document, 5).unwrap();
    assert_eq!(trends.len(), 2);
    assert_eq!(trends[0].identity(), "rust-lang/rust");
    assert_eq!(trends[1].identity(), "a/b");
    assert_eq!(trends[1].discovered_at(), 5);
    let empty: serde_json::Value = serde_json::from_str("null").unwrap();
    assert_eq!(trends_from_json(&empty, 5), Err(Error::FetchFailed));
}

#[test]
fn candidate_needs_all_three_fields() {
    assert_eq!(
        candidate_from_fields(Some("a"), Some("u"), Some("d"), 3),
        Ok(Candidate::new("a", "u", "d", 3))
    );
    assert_eq!(
        candidate_from_fields(Some(""), Some(""), Some(""), 3),
        Ok(Candidate::new("", "", "", 3))
    );
    assert_eq!(candidate_from_fields(None, Some("u"), Some("d"), 3), Err(Error::FetchFailed));
    assert_eq!(candidate_from_fields(Some("a"), None, Some("d"), 3), Err(Error::FetchFailed));
    assert_eq!(candidate_from_fields(Some("a"), Some("u"), None, 3), Err(Error::FetchFailed));
    assert_eq!(candidate_from_fields(None, None, None, 3), Err(Error::FetchFailed));
}
