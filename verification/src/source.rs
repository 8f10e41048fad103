//! Reading the trend source's answer: a JSON document with the trending
//! items under `items`, each with its name, link and description.

use crate::candidate::{Candidate, CandidateView};
use crate::error::Error;
use serde_json::Value;
use vstd::prelude::*;
use vstd::string::*;

verus! {

/// Where the code host's API lives.
pub const GITHUB_API_URL: &'static str = "https://api.github.com";

/// The path of the repository search.
pub const SEARCH_PATH: &'static str = "/search/repositories";

/// The query for trending repositories, most starred first.
pub const SEARCH_QUERY: &'static str = "?q=language:rust&sort=stars&order=desc";

/// The name under which the search is requested.
pub const USER_AGENT: &'static str = "rust/rust-trends-bot";

/// A JSON value of `serde_json`. Nothing is known of what is inside one but
/// through [`json_content`].
#[verifier::external_type_specification]
#[verifier::external_body]
pub struct ExValue(serde_json::Value);

/// What a JSON value holds, as far as an answer is read: strings, arrays and
/// objects. `null`, booleans and numbers are all `Other`.
pub enum Json {
    Text(Seq<char>),
    Array(Seq<Json>),
    Object(Map<Seq<char>, Json>),
    Other,
}

/// What a `serde_json::Value` holds.
pub uninterp spec fn json_content(value: Value) -> Json;

/// What the JSON document in a text holds; `None` where the text is no
/// JSON document.
pub uninterp spec fn json_parse(text: Seq<char>) -> Option<Json>;

/// What each of some values holds.
pub open spec fn json_contents(values: Seq<Value>) -> Seq<Json> {
    Seq::new(values.len(), |i: int| json_content(values[i]))
}

/// `serde_json::from_str`, read as a `Value`: the parsed document, or
/// nothing where the parser reports an error. What the document holds
/// depends on the text alone.
#[verifier::external_body]
fn parse_document(text: &str) -> (parsed: Option<Value>)
    ensures
        match parsed {
            Some(document) => json_parse(text@) == Some(json_content(document)),
            None => json_parse(text@) is None,
        },
{
    serde_json::from_str::<Value>(text).ok()
}

/// `serde_json::Value::get` with a string key: the member under `key` where
/// `value` is an object that has one, nothing otherwise.
#[verifier::external_body]
fn member<'a>(value: &'a Value, key: &str) -> (found: Option<&'a Value>)
    ensures
        match found {
            Some(inner) => json_content(*value) matches Json::Object(members)
                && members.contains_key(key@) && members[key@] == json_content(*inner),
            None => !(json_content(*value) matches Json::Object(members) && members.contains_key(
                key@,
            )),
        },
{
    value.get(key)
}

/// `serde_json::Value::as_array`: the elements where `value` is an array,
/// nothing otherwise.
#[verifier::external_body]
fn elements(value: &Value) -> (found: Option<&Vec<Value>>)
    ensures
        match found {
            Some(items) => json_content(*value) == Json::Array(json_contents(items@)),
            None => !(json_content(*value) is Array),
        },
{
    value.as_array()
}

/// `serde_json::Value::as_str`: the text where `value` is a string, nothing
/// otherwise.
#[verifier::external_body]
fn text_of(value: &Value) -> (found: Option<&str>)
    ensures
        match found {
            Some(text) => json_content(*value) == Json::Text(text@),
            None => !(json_content(*value) is Text),
        },
{
    value.as_str()
}

/// The text that a JSON object holds under `key`, where it holds a string
/// there.
pub open spec fn string_member(value: Json, key: Seq<char>) -> Option<Seq<char>> {
    match value {
        Json::Object(members) if members.contains_key(key) => match members[key] {
            Json::Text(text) => Some(text),
            _ => None,
        },
        _ => None,
    }
}

/// The candidate made of three fields as the source gave them: there is one
/// exactly when none of the three is missing.
pub open spec fn candidate_of(
    name: Option<Seq<char>>,
    url: Option<Seq<char>>,
    description: Option<Seq<char>>,
    discovered_at: int,
) -> Option<CandidateView> {
    if name is Some && url is Some && description is Some {
        Some(
            CandidateView {
                identity: name->Some_0,
                url: url->Some_0,
                description: description->Some_0,
                discovered_at,
            },
        )
    } else {
        None
    }
}

/// The candidate that one item of the answer describes: its `full_name`,
/// `html_url` and `description`, each of which must be a string.
pub open spec fn trend_of(item: Json, discovered_at: int) -> Option<CandidateView> {
    candidate_of(
        string_member(item, "full_name"@),
        string_member(item, "html_url"@),
        string_member(item, "description"@),
        discovered_at,
    )
}

/// The candidates that a list of items describes, in the list's order;
/// `None` where some item describes none.
pub open spec fn trends_of(items: Seq<Json>, discovered_at: int) -> Option<Seq<CandidateView>> {
    if forall|i: int| 0 <= i < items.len() ==> (#[trigger] trend_of(items[i], discovered_at)) is Some {
        Some(Seq::new(items.len(), |i: int| trend_of(items[i], discovered_at)->Some_0))
    } else {
        None
    }
}

/// The candidates in a document: those of the array under `items`.
pub open spec fn trends_in(document: Json, discovered_at: int) -> Option<Seq<CandidateView>> {
    match document {
        Json::Object(members) if members.contains_key("items"@) => match members["items"@] {
            Json::Array(items) => trends_of(items, discovered_at),
            _ => None,
        },
        _ => None,
    }
}

/// The candidates in the text of an answer.
pub open spec fn trends_in_text(text: Seq<char>, discovered_at: int) -> Option<
    Seq<CandidateView>,
> {
    match json_parse(text) {
        Some(document) => trends_in(document, discovered_at),
        None => None,
    }
}

/// The address of the search for trending repositories.
pub fn search_url() -> (url: String)
    ensures
        url@ == GITHUB_API_URL@ + SEARCH_PATH@ + SEARCH_QUERY@,
{
    let mut url = GITHUB_API_URL.to_owned();
    url.append(SEARCH_PATH);
    url.append(SEARCH_QUERY);
    url
}

/// The candidate made of the three fields of an item, observed at
/// `discovered_at`. An item that lacks one of them is a malformed answer.
pub fn candidate_from_fields(
    name: Option<&str>,
    url: Option<&str>,
    description: Option<&str>,
    discovered_at: i64,
) -> (made: Result<Candidate, Error>)
    ensures
        match made {
            Ok(candidate) => name is Some && url is Some && description is Some && candidate@ == (
            CandidateView {
                identity: name->Some_0@,
                url: url->Some_0@,
                description: description->Some_0@,
                discovered_at: discovered_at as int,
            }),
            Err(e) => (name is None || url is None || description is None) && e
                == Error::FetchFailed,
        },
{
    match (name, url, description) {
        (Some(name), Some(url), Some(description)) => Ok(
            Candidate::new(name, url, description, discovered_at),
        ),
        _ => Err(Error::FetchFailed),
    }
}

fn string_field<'a>(value: &'a Value, key: &str) -> (found: Option<&'a str>)
    ensures
        match found {
            Some(text) => string_member(json_content(*value), key@) == Some(text@),
            None => string_member(json_content(*value), key@) is None,
        },
{
    match member(value, key) {
        Some(inner) => text_of(inner),
        None => None,
    }
}

/// The candidate that one item of the answer describes.
pub fn trend_from_json(item: &Value, discovered_at: i64) -> (made: Result<Candidate, Error>)
    ensures
        match made {
            Ok(candidate) => trend_of(json_content(*item), discovered_at as int) == Some(
                candidate@,
            ),
            Err(e) => trend_of(json_content(*item), discovered_at as int) is None && e
                == Error::FetchFailed,
        },
{
    candidate_from_fields(
        string_field(item, "full_name"),
        string_field(item, "html_url"),
        string_field(item, "description"),
        discovered_at,
    )
}

/// The candidates of a parsed answer, in the source's order. An answer
/// without an array under `items`, or with an item that lacks a field, is
/// malformed.
pub fn trends_from_json(document: &Value, discovered_at: i64) -> (made: Result<
    Vec<Candidate>,
    Error,
>)
    ensures
        match made {
            Ok(candidates) => trends_in(json_content(*document), discovered_at as int) == Some(
                candidates.deep_view(),
            ),
            Err(e) => trends_in(json_content(*document), discovered_at as int) is None && e
                == Error::FetchFailed,
        },
{
    let list = match member(document, "items") {
        Some(list) => list,
        None => { return Err(Error::FetchFailed); },
    };
    let items = match elements(list) {
        Some(items) => items,
        None => { return Err(Error::FetchFailed); },
    };
    let mut candidates: Vec<Candidate> = Vec::new();
    let mut i: usize = 0;
    while i < items.len()
        invariant
            i <= items.len(),
            candidates.len() == i,
            trends_in(json_content(*document), discovered_at as int) == trends_of(
                json_contents(items@),
                discovered_at as int,
            ),
            forall|k: int|
                0 <= k < i ==> (#[trigger] trend_of(
                    json_contents(items@)[k],
                    discovered_at as int,
                )) == Some(candidates@[k]@),
        decreases items.len() - i,
    {
        match trend_from_json(&items[i], discovered_at) {
            Ok(candidate) => {
                candidates.push(candidate);
            },
            Err(e) => {
                assert(trend_of(json_contents(items@)[i as int], discovered_at as int) is None);
                return Err(e);
            },
        }
        i += 1;
    }
    assert(candidates.deep_view() =~= Seq::new(
        items@.len(),
        |k: int| trend_of(json_contents(items@)[k], discovered_at as int)->Some_0,
    ));
    Ok(candidates)
}

/// The candidates in the text of the source's answer, observed at
/// `discovered_at`. A text that is no JSON document is malformed too.
pub fn parse_trends(body: &str, discovered_at: i64) -> (made: Result<Vec<Candidate>, Error>)
    ensures
        match made {
            Ok(candidates) => trends_in_text(body@, discovered_at as int) == Some(
                candidates.deep_view(),
            ),
            Err(e) => trends_in_text(body@, discovered_at as int) is None && e
                == Error::FetchFailed,
        },
{
    match parse_document(body) {
        Some(document) => trends_from_json(&document, discovered_at),
        None => Err(Error::FetchFailed),
    }
}

} // verus!
