use business_api::auth::service_account::ServiceAccountCredentials;
use business_api::error::ServiceError;
use business_api::services::business_service::accounts::{Account, Accounts};
use business_api::services::business_service::json::{parse_body, read_items};
use business_api::services::business_service::locations::join_field_mask;
use business_api::services::business_service::request::{
    bearer_header, header_value_is_valid, update_url, HttpRequest, Method,
};
use business_api::services::business_service::BusinessService;
use business_api::services::translate_service::{
    BasicServiceType, TranslateService, TRANSLATE_SERVICE_BASE_URL, TRANSLATE_SERVICE_SCOPE,
};
use business_api::services::ServiceBase;

fn account(name: &str) -> Account {
    Account {
        account_name: name.to_string(),
        name: format!("accounts/{}", name),
        the_type: "PERSONAL".to_string(),
        verification_state: "VERIFIED".to_string(),
        vetted_state: "NOT_VETTED".to_string(),
        account_number: None,
        permission_level: Some("OWNER_LEVEL".to_string()),
        role: None,
    }
}

fn credentials() -> ServiceAccountCredentials {
    ServiceAccountCredentials {
        client_email: "robot@example.test".to_string(),
        private_key_id: "k1".to_string(),
        private_key: "not a key".to_string(),
        token_uri: "https://example.test/token".to_string(),
    }
}

#[test]
fn new_service_holds_the_token_and_no_account() {
    let service = BusinessService::new("abc");
    assert_eq!(service.access_token(), "abc");
    assert_eq!(service.account_id(), None);
    assert_eq!(BusinessService::new(""), BusinessService::default());
}

#[test]
fn request_carries_the_bearer_credential_and_the_content_type() {
    let service = BusinessService::new("ya29.token");
    assert_eq!(
        service.request("https://h/v1/accounts"),
        Ok(HttpRequest {
            method: Method::Get,
            url: "https://h/v1/accounts".to_string(),
            authorization: "Bearer ya29.token".to_string(),
            content_type: "application/json".to_string(),
            body: None,
        })
    );
}

#[test]
fn resource_request_appends_the_page_token_after_the_first_page() {
    let service = BusinessService::new("t");
    let first = service.resource_request("https://h/l?readMask=name", &None).unwrap();
    assert_eq!(first.url, "https://h/l?readMask=name");
    assert_eq!(first.method, Method::Get);
    let second =
        service.resource_request("https://h/l?readMask=name", &Some("t1".to_string())).unwrap();
    assert_eq!(second.url, "https://h/l?readMask=name&pageToken=t1");
    assert_eq!(second.authorization, "Bearer t");
    assert_eq!(second.body, None);
}

#[test]
fn update_request_patches_with_the_title_mask() {
    let service = BusinessService::new("t");
    assert_eq!(
        service.update_request("https://h/v1/locations/1", r#"{"title":"New"}"#),
        Ok(HttpRequest {
            method: Method::Patch,
            url: "https://h/v1/locations/1?updateMask=title".to_string(),
            authorization: "Bearer t".to_string(),
            content_type: "application/json".to_string(),
            body: Some(r#"{"title":"New"}"#.to_string()),
        })
    );
    assert_eq!(update_url(""), "?updateMask=title");
}

#[test]
fn credential_that_cannot_stand_in_a_header_is_a_transport_failure() {
    let failure =
        Err(ServiceError::TransportFailure { reason: "invalid header value".to_string() });
    for token in ["line\nbreak", "carriage\rreturn", "nul\0", "delete\x7f", "\x1b[0m"] {
        let service = BusinessService::new(token);
        assert_eq!(service.request("https://h"), failure, "{:?}", token);
        assert_eq!(service.resource_request("https://h", &None), failure, "{:?}", token);
        assert_eq!(service.update_request("https://h", "{}"), failure, "{:?}", token);
    }
}

#[test]
fn header_value_admits_tab_and_all_from_space_up_but_delete() {
    assert!(header_value_is_valid(""));
    assert!(header_value_is_valid("Bearer abc.def-ghi_123"));
    assert!(header_value_is_valid("tab\tinside"));
    assert!(header_value_is_valid(" ~"));
    assert!(header_value_is_valid("caf\u{e9} \u{4e16}\u{754c}"));
    assert!(!header_value_is_valid("\x1f"));
    assert!(!header_value_is_valid("a\x7fb"));
    assert!(!header_value_is_valid("a\nb"));
    assert!(!header_value_is_valid("\0"));
}

#[test]
fn bearer_header_prefixes_the_token() {
    assert_eq!(bearer_header("abc"), "Bearer abc");
    assert_eq!(bearer_header(""), "Bearer ");
}

#[test]
fn field_mask_is_joined_by_commas_in_order() {
    let mask = |names: &[&str]| {
        join_field_mask(&names.iter().map(|n| n.to_string()).collect::<Vec<String>>())
    };
    assert_eq!(mask(&[]), "");
    assert_eq!(mask(&["name"]), "name");
    assert_eq!(mask(&["", ""]), ",");
    assert_eq!(
        mask(&["storeCode", "title", "name", "phoneNumbers"]),
        "storeCode,title,name,phoneNumbers"
    );
}

#[test]
fn accounts_listing_without_accounts_is_an_error() {
    assert_eq!(Accounts { accounts: vec![] }.require_some(), Err(ServiceError::EmptyResult));
}

#[test]
fn accounts_response_with_empty_array_fails_with_empty_result() {
    let body = parse_body(r#"{"accounts": []}"#).unwrap();
    let listed = read_items(&body, "accounts").unwrap();
    assert!(listed.is_empty());
    let accounts = Accounts { accounts: listed.iter().map(|_| account("never")).collect() };
    assert_eq!(accounts.require_some(), Err(ServiceError::EmptyResult));
}

#[test]
fn accounts_listing_with_accounts_is_handed_back_unchanged() {
    let accounts = Accounts { accounts: vec![account("a"), account("b")] };
    assert_eq!(accounts.clone().require_some(), Ok(accounts));
}

#[test]
fn translate_service_with_api_key_authenticates_by_it() {
    let service = TranslateService::new_with_api_key("key-1".to_string());
    assert_eq!(service.base().api_key(), Some(&"key-1".to_string()));
    assert!(service.base().service_account().is_none());
}

#[test]
fn translate_service_with_credentials_asks_for_the_translation_scope() {
    let service = TranslateService::new_with_credentials(credentials());
    assert_eq!(service.base().api_key(), None);
    let (held, scopes) = service.base().service_account().unwrap();
    assert_eq!(*held, credentials());
    assert_eq!(*scopes, vec!["https://www.googleapis.com/auth/cloud-translation".to_string()]);
    assert_eq!(scopes[0], TRANSLATE_SERVICE_SCOPE);
}

#[test]
fn service_base_keeps_the_scopes_in_order() {
    let base = ServiceBase::new_with_credentials(credentials(), vec!["s1", "s2", "s3"]);
    let (_, scopes) = base.service_account().unwrap();
    assert_eq!(*scopes, vec!["s1".to_string(), "s2".to_string(), "s3".to_string()]);
    let base = ServiceBase::new_with_api_key(String::new());
    assert_eq!(base.api_key(), Some(&String::new()));
}

#[test]
fn basic_service_paths() {
    assert_eq!(BasicServiceType::Translate.path(), "");
    assert_eq!(BasicServiceType::Detect.path(), "detect");
    assert_eq!(BasicServiceType::Languages.path(), "languages");
    assert_eq!(
        TRANSLATE_SERVICE_BASE_URL,
        "https://translation.googleapis.com/language/translate"
    );
}

#[test]
fn failures_wrap_and_compare_by_what_they_hold() {
    assert_eq!(
        ServiceError::transport("down"),
        ServiceError::TransportFailure { reason: "down".to_string() }
    );
    assert_eq!(
        ServiceError::schema("locations"),
        ServiceError::SchemaViolation { field: "locations".to_string() }
    );
    assert_eq!(
        ServiceError::EmptyResult.in_sub_query(),
        ServiceError::SubQueryFailure { cause: Box::new(ServiceError::EmptyResult) }
    );
    assert_ne!(ServiceError::schema("a"), ServiceError::schema("b"));
}
