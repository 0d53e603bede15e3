use http_tools::request::HttpVersion;
use http_tools::response::{Filter, ResponseData};

fn resp_with_headers(headers: Vec<(&str, &str)>) -> ResponseData {
    ResponseData {
        status: 200,
        version: HttpVersion::Http11,
        headers: headers
            .into_iter()
            .map(|(k, v)| (k.to_string(), v.to_string()))
            .collect(),
        body: Vec::new(),
    }
}

#[test]
fn response_filter_test_header() {
    let response = resp_with_headers(vec![("key", "value")]);
    let filter = response.filter_http().filter_header("key", "value");
    assert!(filter.is_some());
    let filter = response.filter_http().filter_header("key", "{}");
    assert!(filter.is_some());
    let filter = response.filter_http().filter_header("{}", "value");
    assert!(filter.is_some());
    let filter = response.filter_http().filter_header("{}", "value");
    assert!(filter.is_some());
    let filter = response.filter_http().filter_header("{}", "{}");
    assert!(filter.is_some());
    let filter = response.filter_http().filter_header("key2", "value2");
    assert!(filter.is_none());
}

#[test]
fn response_filter_test_custom() {
    let response = resp_with_headers(vec![]);
    let filter = response.filter_http().filter_custom(|_| true);
    assert!(filter.is_some());
    let filter = response.filter_http().filter_custom(|_| false);
    assert!(filter.is_none());
}

#[test]
fn test_status() {
    let response = ResponseData::from_status(200);
    let filter = response.filter_http().filter_status(200);
    assert!(filter.is_some());
    let filter = response.filter_http().filter_status(200);
    assert!(filter.is_some());
    let filter = response.filter_http().filter_status(500);
    assert!(filter.is_none());
    let filter = response.filter_http().filter_status(1000);
    assert!(filter.is_none());
}

#[test]
fn test_response_header_key_case_insensitive() {
    let response = resp_with_headers(vec![("key", "value")]);
    assert!(response.filter_http().filter_header("KEY", "value").is_some());
    assert!(response.filter_http().filter_header("Key", "{}").is_some());
    // values stay case-sensitive
    assert!(response.filter_http().filter_header("key", "VALUE").is_none());
}

#[test]
fn test_wildcard_key_on_empty_headers() {
    let response = resp_with_headers(vec![]);
    assert!(response.filter_http().filter_header("{}", "{}").is_none());
    assert!(response.filter_http().filter_header("{}", "value").is_none());
}

#[test]
fn test_first_value_under_key_decides() {
    let response = resp_with_headers(vec![("k", "a"), ("k", "b")]);
    assert!(response.filter_http().filter_header("k", "a").is_some());
    assert!(response.filter_http().filter_header("k", "b").is_none());
    assert!(response.filter_http().filter_header("{}", "b").is_some());
}

#[test]
fn test_from_status_fields() {
    let response = ResponseData::from_status(418);
    assert_eq!(response.status, 418);
    assert_eq!(response.version, HttpVersion::Http11);
    assert!(response.headers.is_empty());
    assert!(response.body.is_empty());
}

#[test]
fn test_from_error_parts() {
    let response = ResponseData::from_error_parts(
        Some(418),
        Some("Short and spout!".to_string()),
        None,
    );
    assert_eq!(response.status, 418);
    assert_eq!(response.body, b"Short and spout!".to_vec());

    let response = ResponseData::from_error_parts(
        None,
        None,
        Some("Internal Server Error".to_string()),
    );
    assert_eq!(response.status, 500);
    assert_eq!(response.body, b"Internal Server Error".to_vec());

    let response = ResponseData::from_error_parts(None, None, None);
    assert_eq!(response.status, 500);
    assert!(response.body.is_empty());
}
