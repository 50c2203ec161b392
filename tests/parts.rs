use hero_service::api_key::{ApiKey, ApiKeyError, Outcome};
use hero_service::counter::Counter;
use hero_service::http::{Method, Request};
use hero_service::text::{decimal, parse_index, percent_decode, split, split_pair};

#[test]
fn guard_missing_header() {
    let r = ApiKey::from_request(&Request::new(Method::Get, "/api/protected"));
    assert!(matches!(r, Outcome::Failure(401, ApiKeyError::MissingKey)));
    assert!(matches!(ApiKey::from_header(None), Err(ApiKeyError::MissingKey)));
}

#[test]
fn guard_invalid_header() {
    let req = Request::new(Method::Get, "/api/protected").with_header("x-api-key", "c2VjcmV");
    assert!(matches!(ApiKey::from_request(&req), Outcome::Failure(401, ApiKeyError::InvalidKey)));
    assert!(matches!(ApiKey::from_header(Some("not base64!")), Err(ApiKeyError::InvalidKey)));
}

#[test]
fn guard_valid_header() {
    match ApiKey::from_header(Some("c2VjcmV0")) {
        Ok(k) => assert_eq!(k.0, "secret"),
        Err(_) => panic!("expected the decoded key"),
    }
    match ApiKey::from_header(Some("")) {
        Ok(k) => assert_eq!(k.0, ""),
        Err(_) => panic!("the empty text is valid base64"),
    }
}

#[test]
fn guard_accepts_bytes_that_are_not_utf8() {
    // "/w==" decodes to the single byte 0xFF, which is read as U+FFFD
    match ApiKey::from_header(Some("/w==")) {
        Ok(k) => assert_eq!(k.0, "\u{FFFD}"),
        Err(_) => panic!("a value that decodes is accepted"),
    }
}

#[test]
fn counter_saturates_at_the_largest_count() {
    let mut c = Counter { get: usize::MAX, post: usize::MAX };
    c.on_request(Method::Get);
    c.on_request(Method::Post);
    assert_eq!((c.get, c.post), (usize::MAX, usize::MAX));
}

#[test]
fn counter_counts_get_and_post_only() {
    let mut c = Counter::new();
    c.on_request(Method::Get);
    c.on_request(Method::Post);
    c.on_request(Method::Get);
    c.on_request(Method::Delete);
    assert_eq!((c.get, c.post), (2, 1));
    let info = c.info();
    assert_eq!(info.name, "GET/POST Counter");
    assert!(info.on_ignite && info.on_request && !info.on_response);
}

#[test]
fn split_keeps_empty_pieces() {
    assert_eq!(split("/api/x", '/'), vec!["", "api", "x"]);
    assert_eq!(split("", '&'), vec![""]);
    assert_eq!(split("a&&b", '&'), vec!["a", "", "b"]);
}

#[test]
fn split_pair_at_first_equals() {
    assert_eq!(split_pair("a=b=c"), ("a".to_string(), "b=c".to_string()));
    assert_eq!(split_pair("flag"), ("flag".to_string(), String::new()));
}

#[test]
fn parse_index_bounds() {
    assert_eq!(parse_index("0"), Some(0));
    assert_eq!(parse_index("42"), Some(42));
    assert_eq!(parse_index(""), None);
    assert_eq!(parse_index("4a"), None);
    assert_eq!(parse_index(&usize::MAX.to_string()), Some(usize::MAX));
    assert_eq!(parse_index("99999999999999999999999"), None);
}

#[test]
fn decimal_writes_numbers() {
    assert_eq!(decimal(0), "0");
    assert_eq!(decimal(7), "7");
    assert_eq!(decimal(1203), "1203");
    assert_eq!(decimal(usize::MAX), usize::MAX.to_string());
}

#[test]
fn percent_decode_cases() {
    assert_eq!(percent_decode("a%20b", false), Some("a b".to_string()));
    assert_eq!(percent_decode("a+b", true), Some("a b".to_string()));
    assert_eq!(percent_decode("a+b", false), Some("a+b".to_string()));
    assert_eq!(percent_decode("%zz%4", false), Some("%zz%4".to_string()));
    assert_eq!(percent_decode("%C3%A9", false), Some("\u{e9}".to_string()));
    assert_eq!(percent_decode("%FF", false), None);
}
