use business_api::error::ServiceError;
use business_api::services::business_service::json::{
    parse_body, read_items, read_page, read_page_text, read_token,
};
use business_api::services::business_service::paginator::{
    page_request_url, PageWalk, ResultPage, WalkStep,
};
use serde_json::Value;

const BASE: &str = "https://example.test/v1/accounts/-/locations?readMask=name";

fn texts(items: &[Value]) -> Vec<String> {
    items.iter().map(|v| v.as_str().unwrap().to_string()).collect()
}

/// Drives a walk against the answers of a server, and gives the end of the
/// walk with the URLs that were requested.
fn drive(
    base_url: &str,
    key: &str,
    bodies: &[Result<&str, ServiceError>],
) -> (Result<Vec<Value>, ServiceError>, Vec<String>) {
    let mut walk: PageWalk<Value> = PageWalk::new(base_url);
    let mut requests: Vec<String> = Vec::new();
    let mut answers = bodies.iter();
    loop {
        requests.push(walk.request_url());
        let outcome = match answers.next().expect("the walk asked for more than was served") {
            Ok(body) => read_page_text(body, key),
            Err(ServiceError::TransportFailure { reason }) => {
                Err(ServiceError::TransportFailure { reason: reason.clone() })
            }
            Err(_) => unreachable!(),
        };
        match walk.advance(outcome) {
            WalkStep::Continue(next) => walk = next,
            WalkStep::Done(items) => return (Ok(items), requests),
            WalkStep::Failed(e) => return (Err(e), requests),
        }
    }
}

#[test]
fn token_chain_of_two_pages_yields_all_items_in_order() {
    let (result, requests) = drive(
        BASE,
        "items",
        &[
            Ok(r#"{"items": ["a", "b"], "nextPageToken": "t1"}"#),
            Ok(r#"{"items": ["c"], "nextPageToken": null}"#),
        ],
    );
    assert_eq!(texts(&result.unwrap()), vec!["a", "b", "c"]);
    assert_eq!(requests.len(), 2);
    assert_eq!(requests[0], BASE);
    assert!(requests[1].contains("pageToken=t1"));
    assert_eq!(requests[1], format!("{}&pageToken=t1", BASE));
}

#[test]
fn token_chain_of_four_pages_issues_four_requests() {
    let (result, requests) = drive(
        BASE,
        "locations",
        &[
            Ok(r#"{"locations": ["a"], "nextPageToken": "second"}"#),
            Ok(r#"{"locations": [], "nextPageToken": "third"}"#),
            Ok(r#"{"locations": ["b", "c"], "nextPageToken": "fourth"}"#),
            Ok(r#"{"locations": ["d"]}"#),
            Ok(r#"{"locations": ["never asked for"]}"#),
        ],
    );
    assert_eq!(texts(&result.unwrap()), vec!["a", "b", "c", "d"]);
    assert_eq!(
        requests,
        vec![
            BASE.to_string(),
            format!("{}&pageToken=second", BASE),
            format!("{}&pageToken=third", BASE),
            format!("{}&pageToken=fourth", BASE),
        ]
    );
}

#[test]
fn first_page_without_token_is_the_whole_result() {
    let (result, requests) = drive(BASE, "locations", &[Ok(r#"{"locations": ["only"]}"#)]);
    assert_eq!(texts(&result.unwrap()), vec!["only"]);
    assert_eq!(requests, vec![BASE.to_string()]);
}

#[test]
fn empty_first_page_is_an_empty_collection_and_no_error() {
    let (result, requests) = drive(BASE, "locations", &[Ok(r#"{"locations": []}"#)]);
    assert_eq!(result, Ok(Vec::new()));
    assert_eq!(requests.len(), 1);
}

#[test]
fn missing_items_field_is_a_schema_violation() {
    let body = parse_body(r#"{"nextPageToken": "t1"}"#).unwrap();
    match read_page(&body, "locations") {
        Err(e) => assert_eq!(e, ServiceError::SchemaViolation { field: "locations".to_string() }),
        Ok(_) => panic!("a body without items was read as a page"),
    }
}

#[test]
fn missing_items_field_differs_from_an_empty_array() {
    let empty = parse_body(r#"{"locations": []}"#).unwrap();
    let missing = parse_body(r#"{}"#).unwrap();
    assert_eq!(read_items(&empty, "locations"), Ok(Vec::new()));
    assert_eq!(
        read_items(&missing, "locations"),
        Err(ServiceError::SchemaViolation { field: "locations".to_string() })
    );
}

#[test]
fn items_of_another_shape_are_a_schema_violation() {
    for body in [
        r#"{"locations": {"a": 1}}"#,
        r#"{"locations": "a"}"#,
        r#"{"locations": null}"#,
        r#"{"locations": 3}"#,
        r#"["locations"]"#,
        r#""locations""#,
    ] {
        let value = parse_body(body).unwrap();
        assert_eq!(
            read_items(&value, "locations"),
            Err(ServiceError::SchemaViolation { field: "locations".to_string() }),
            "{}",
            body
        );
    }
}

#[test]
fn missing_items_fails_the_walk_after_any_number_of_pages() {
    let page = r#"{"locations": ["x"], "nextPageToken": "more"}"#;
    let broken = r#"{"nextPageToken": "more"}"#;
    for prior in 0..4 {
        let mut bodies: Vec<Result<&str, ServiceError>> = Vec::new();
        for _ in 0..prior {
            bodies.push(Ok(page));
        }
        bodies.push(Ok(broken));
        let (result, requests) = drive(BASE, "locations", &bodies);
        assert_eq!(
            result,
            Err(ServiceError::SchemaViolation { field: "locations".to_string() })
        );
        assert_eq!(requests.len(), prior + 1);
    }
}

#[test]
fn transport_failure_aborts_the_walk_without_a_partial_result() {
    let (result, requests) = drive(
        BASE,
        "locations",
        &[
            Ok(r#"{"locations": ["a"], "nextPageToken": "t1"}"#),
            Ok(r#"{"locations": ["b"], "nextPageToken": "t2"}"#),
            Err(ServiceError::TransportFailure { reason: "connection reset".to_string() }),
        ],
    );
    assert_eq!(
        result,
        Err(ServiceError::TransportFailure { reason: "connection reset".to_string() })
    );
    assert_eq!(requests.len(), 3);
}

#[test]
fn body_that_is_no_json_is_a_schema_violation_without_a_field() {
    assert_eq!(
        parse_body("<html>busy</html>"),
        Err(ServiceError::SchemaViolation { field: String::new() })
    );
    let (result, requests) = drive(BASE, "locations", &[Ok("not json")]);
    assert_eq!(result, Err(ServiceError::SchemaViolation { field: String::new() }));
    assert_eq!(requests.len(), 1);
}

#[test]
fn parse_body_reads_the_text_it_is_given() {
    let value = parse_body(r#"{"a": [1, 2, 3]}"#).unwrap();
    assert!(value.is_object());
    assert_eq!(value.get("a").unwrap().as_array().unwrap().len(), 3);
    assert_eq!(parse_body("  null ").unwrap(), Value::Null);
}

#[test]
fn read_items_hands_out_the_elements_in_order() {
    let body = parse_body(r#"{"other": ["z"], "admins": ["a", {"b": 1}, 3, null]}"#).unwrap();
    let items = read_items(&body, "admins").unwrap();
    assert_eq!(items.len(), 4);
    assert_eq!(items[0], Value::String("a".to_string()));
    assert!(items[1].is_object());
    assert_eq!(items[2].as_u64(), Some(3));
    assert!(items[3].is_null());
}

#[test]
fn read_token_tells_absent_null_text_and_malformed_apart() {
    let read = |text: &str| read_token(&parse_body(text).unwrap());
    assert_eq!(read(r#"{"locations": []}"#), Ok(None));
    assert_eq!(read(r#"{"nextPageToken": null}"#), Ok(None));
    assert_eq!(read(r#"{"nextPageToken": "abc"}"#), Ok(Some("abc".to_string())));
    assert_eq!(read(r#"{"nextPageToken": ""}"#), Ok(Some(String::new())));
    for malformed in [
        r#"{"nextPageToken": 7}"#,
        r#"{"nextPageToken": true}"#,
        r#"{"nextPageToken": ["t"]}"#,
        r#"{"nextPageToken": {"t": "u"}}"#,
    ] {
        assert_eq!(
            read(malformed),
            Err(ServiceError::SchemaViolation { field: "nextPageToken".to_string() }),
            "{}",
            malformed
        );
    }
}

#[test]
fn missing_items_are_reported_before_a_malformed_token() {
    let body = parse_body(r#"{"nextPageToken": 7}"#).unwrap();
    match read_page(&body, "locations") {
        Err(e) => assert_eq!(e, ServiceError::SchemaViolation { field: "locations".to_string() }),
        Ok(_) => panic!("read a page"),
    }
    let body = parse_body(r#"{"locations": [], "nextPageToken": 7}"#).unwrap();
    match read_page(&body, "locations") {
        Err(e) => {
            assert_eq!(e, ServiceError::SchemaViolation { field: "nextPageToken".to_string() })
        }
        Ok(_) => panic!("read a page"),
    }
}

#[test]
fn page_request_url_appends_the_token_only_when_there_is_one() {
    assert_eq!(page_request_url("https://h/x?a=b", &None), "https://h/x?a=b");
    assert_eq!(
        page_request_url("https://h/x?a=b", &Some("tok".to_string())),
        "https://h/x?a=b&pageToken=tok"
    );
    assert_eq!(page_request_url("", &Some(String::new())), "&pageToken=");
}

#[test]
fn walk_is_generic_over_its_items() {
    let walk: PageWalk<u32> = PageWalk::new("u");
    let walk = match walk.advance(Ok(ResultPage {
        items: vec![1, 2],
        next_page_token: Some("n".to_string()),
    })) {
        WalkStep::Continue(next) => next,
        _ => panic!("the walk ended on a page with a token"),
    };
    assert_eq!(walk.request_url(), "u&pageToken=n");
    match walk.advance(Ok(ResultPage { items: vec![3], next_page_token: None })) {
        WalkStep::Done(items) => assert_eq!(items, vec![1, 2, 3]),
        _ => panic!("the walk went on after a page without a token"),
    }
}
