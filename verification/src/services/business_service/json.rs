//! Reading response bodies.
//!
//! A body is JSON, held as a `serde_json::Value`. This module reads from it
//! what the page walk needs: the array of items under the key of the
//! resource, and the continuation token beside it.
//!
//! `serde_json` is not verified here. What this module relies on is stated by
//! the specifications below, one for each of its functions that is called,
//! each over a name for what that function returns.

use crate::error::{ErrorModel, ServiceError};
use crate::services::business_service::paginator::{
    drive, has_next_page, lemma_walk_failure_discards_pages, outcome_model, served, PageModel,
    ResultPage, StepModel, WalkModel,
};
use serde_json::Value;
use vstd::prelude::*;

verus! {

/// `serde_json::Value`, a JSON value. Nothing inside it is seen here; what
/// it holds is read through the functions specified below.
#[verifier::external_type_specification]
#[verifier::external_body]
pub struct ExValue(serde_json::Value);

/// `serde_json::Error`, why a text was rejected. It is carried, never read.
#[verifier::external_type_specification]
#[verifier::external_body]
pub struct ExJsonError(serde_json::Error);

/// The value that `serde_json::from_str` reads from a text; none where it
/// rejects the text.
pub uninterp spec fn parsed(text: Seq<char>) -> Option<Value>;

/// The value that `Value::get` finds under a string key: the member of that
/// name where the value is an object that has one, none otherwise.
pub uninterp spec fn member(value: Value, key: Seq<char>) -> Option<Value>;

/// The elements that `Value::as_array` gives: those of the array, in order,
/// where the value is an array, none otherwise.
pub uninterp spec fn elements(value: Value) -> Option<Seq<Value>>;

/// The text that `Value::as_str` gives: the string's where the value is a
/// string, none otherwise.
pub uninterp spec fn string_value(value: Value) -> Option<Seq<char>>;

/// What `Value::is_null` says: whether the value is JSON's `null`.
pub uninterp spec fn is_null(value: Value) -> bool;

/// `serde_json::from_str`, reading a `Value`: the value read is a function of
/// the text alone.
#[verifier::external_body]
fn value_from_str(text: &str) -> (r: Result<Value, serde_json::Error>)
    ensures
        match r {
            Ok(value) => parsed(text@) == Some(value),
            Err(_) => parsed(text@) is None,
        },
{
    serde_json::from_str::<Value>(text)
}

/// `Value::get` with a string key: the member found is a function of the
/// value and the key.
#[verifier::external_body]
fn value_get<'a>(value: &'a Value, key: &str) -> (r: Option<&'a Value>)
    ensures
        match r {
            Some(found) => member(*value, key@) == Some(*found),
            None => member(*value, key@) is None,
        },
{
    value.get(key)
}

/// `Value::as_array`: the vector handed out holds the value's elements.
pub assume_specification[ serde_json::Value::as_array ](value: &serde_json::Value) -> (r: Option<
    &Vec<serde_json::Value>,
>)
    ensures
        match r {
            Some(array) => elements(*value) == Some(array@),
            None => elements(*value) is None,
        },
;

/// `Value::as_str`: the slice handed out holds the value's text.
pub assume_specification[ serde_json::Value::as_str ](value: &serde_json::Value) -> (r: Option<
    &str,
>)
    ensures
        match r {
            Some(s) => string_value(*value) == Some(s@),
            None => string_value(*value) is None,
        },
;

/// `Value::is_null`.
pub assume_specification[ serde_json::Value::is_null ](value: &serde_json::Value) -> (r: bool)
    ensures
        r == is_null(*value),
;

/// `Clone` for `Value`: the clone is the same value.
pub assume_specification[ <serde_json::Value as Clone>::clone ](
    value: &serde_json::Value,
) -> (r: serde_json::Value)
    ensures
        r == *value,
;

/// The key under which a response carries its continuation token.
pub const NEXT_PAGE_TOKEN: &'static str = "nextPageToken";

/// What a body holds under the continuation token's key.
pub enum TokenField {
    /// No such member, or `null`: no more pages.
    Absent,
    /// A string: the token.
    Present(Seq<char>),
    /// Anything else.
    Malformed,
}

/// The items of a body: the elements of the array under `key`. None where
/// the body has no such member or the member is no array; an empty array is a
/// page without items, not a missing one.
pub open spec fn items_of(body: Value, key: Seq<char>) -> Option<Seq<Value>> {
    match member(body, key) {
        Some(field) => elements(field),
        None => None,
    }
}

/// The continuation token of a body.
pub open spec fn token_of(body: Value) -> TokenField {
    match member(body, NEXT_PAGE_TOKEN@) {
        None => TokenField::Absent,
        Some(field) => if is_null(field) {
            TokenField::Absent
        } else {
            match string_value(field) {
                Some(token) => TokenField::Present(token),
                None => TokenField::Malformed,
            }
        },
    }
}

/// The page that a body holds for the resource whose items stand under
/// `key`, or the schema violation that it is: a missing or malformed array
/// of items first, a malformed token second.
pub open spec fn page_of(body: Value, key: Seq<char>) -> Result<PageModel<Value>, ErrorModel> {
    match items_of(body, key) {
        None => Err(ErrorModel::SchemaViolation { field: key }),
        Some(items) => match token_of(body) {
            TokenField::Malformed => Err(ErrorModel::SchemaViolation { field: NEXT_PAGE_TOKEN@ }),
            TokenField::Absent => Ok(PageModel { items, next_page_token: None }),
            TokenField::Present(token) => Ok(PageModel { items, next_page_token: Some(token) }),
        },
    }
}

/// The page that a response text holds: that of the value it parses to, or
/// the schema violation of a text that is no JSON, which names no field.
pub open spec fn page_of_text(body: Seq<char>, key: Seq<char>) -> Result<
    PageModel<Value>,
    ErrorModel,
> {
    match parsed(body) {
        Some(value) => page_of(value, key),
        None => Err(ErrorModel::SchemaViolation { field: Seq::empty() }),
    }
}

/// Parses a response text. A text that is no JSON is a schema violation that
/// names no field.
pub fn parse_body(body: &str) -> (r: Result<Value, ServiceError>)
    ensures
        match r {
            Ok(value) => parsed(body@) == Some(value),
            Err(e) => parsed(body@) is None && e@ == (ErrorModel::SchemaViolation {
                field: Seq::empty(),
            }),
        },
{
    match value_from_str(body) {
        Ok(value) => Ok(value),
        Err(_) => Err(ServiceError::SchemaViolation { field: String::new() }),
    }
}

/// Reads the array of items under `key`.
pub fn read_items(body: &Value, key: &str) -> (r: Result<Vec<Value>, ServiceError>)
    ensures
        match r {
            Ok(items) => items_of(*body, key@) == Some(items@),
            Err(e) => items_of(*body, key@) is None && e@ == (ErrorModel::SchemaViolation {
                field: key@,
            }),
        },
{
    let array = match value_get(body, key) {
        Some(field) => field.as_array(),
        None => None,
    };
    match array {
        None => Err(ServiceError::schema(key)),
        Some(array) => {
            let mut items: Vec<Value> = Vec::new();
            let mut i: usize = 0;
            while i < array.len()
                invariant
                    i <= array.len(),
                    items@ == array@.take(i as int),
                decreases array.len() - i,
            {
                items.push(array[i].clone());
                i += 1;
            }
            Ok(items)
        },
    }
}

/// Reads the continuation token. None where the body carries none: a
/// missing member and a `null` both mean that no page follows.
pub fn read_token(body: &Value) -> (r: Result<Option<String>, ServiceError>)
    ensures
        match r {
            Ok(None) => token_of(*body) is Absent,
            Ok(Some(token)) => token_of(*body) == TokenField::Present(token@),
            Err(e) => token_of(*body) is Malformed && e@ == (ErrorModel::SchemaViolation {
                field: NEXT_PAGE_TOKEN@,
            }),
        },
{
    match value_get(body, NEXT_PAGE_TOKEN) {
        None => Ok(None),
        Some(field) => {
            if field.is_null() {
                Ok(None)
            } else {
                match field.as_str() {
                    Some(token) => Ok(Some(token.to_owned())),
                    None => Err(ServiceError::schema(NEXT_PAGE_TOKEN)),
                }
            }
        },
    }
}

/// Reads one page of the resource whose items stand under `key`.
pub fn read_page(body: &Value, key: &str) -> (r: Result<ResultPage<Value>, ServiceError>)
    ensures
        outcome_model(r) == page_of(*body, key@),
{
    let items = match read_items(body, key) {
        Ok(items) => items,
        Err(e) => { return Err(e); },
    };
    match read_token(body) {
        Ok(next_page_token) => Ok(ResultPage { items, next_page_token }),
        Err(e) => Err(e),
    }
}

/// Reads one page from a response text.
pub fn read_page_text(body: &str, key: &str) -> (r: Result<ResultPage<Value>, ServiceError>)
    ensures
        outcome_model(r) == page_of_text(body@, key@),
{
    match parse_body(body) {
        Ok(value) => read_page(&value, key),
        Err(e) => Err(e),
    }
}

/// The answers of a server that sends `bodies` one after the other, as the
/// walk over the resource under `key` reads them.
pub open spec fn answers(bodies: Seq<Value>, key: Seq<char>) -> Seq<
    Result<PageModel<Value>, ErrorModel>,
> {
    Seq::new(bodies.len(), |i: int| page_of(bodies[i], key))
}

/// A body without its array of items fails the whole walk with a schema
/// violation on that field, however many pages were read before it: if the
/// bodies before `at` are pages with tokens and the body at `at` has no
/// array under `key`, the walk ends there, one request after those pages,
/// and nothing of them is handed out.
pub proof fn lemma_walk_fails_without_items(
    base_url: Seq<char>,
    bodies: Seq<Value>,
    key: Seq<char>,
    at: int,
)
    requires
        0 <= at < bodies.len(),
        forall|i: int| 0 <= i < at ==> has_next_page(#[trigger] page_of(bodies[i], key)),
        items_of(bodies[at], key) is None,
    ensures
        ({
            let trace = drive(WalkModel::<Value>::start(base_url), answers(bodies, key));
            &&& trace.end == StepModel::<Value>::Failed(ErrorModel::SchemaViolation { field: key })
            &&& trace.requests.len() == at + 1
        }),
{
    let violation = ErrorModel::SchemaViolation { field: key };
    let pages = Seq::new(at as nat, |i: int| page_of(bodies[i], key)->Ok_0);
    let rest = answers(bodies, key).skip(at + 1);
    assert(answers(bodies, key) =~= served(pages) + seq![
        Err::<PageModel<Value>, ErrorModel>(violation),
    ] + rest);
    lemma_walk_failure_discards_pages(base_url, pages, violation, rest);
}

} // verus!
