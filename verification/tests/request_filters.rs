use http_tools::request::{query_iter, DefaultHandlers, FilterError, RequestData};

fn base_request() -> RequestData {
    let mut r = RequestData::new();
    r.scheme = Some("https".to_string());
    r
}

#[test]
fn filter_test_header() {
    let mut request = base_request();
    request.headers.push(("key".to_string(), "value".to_string()));
    let filter = request.filter_http::<DefaultHandlers>().filter_header("key", "value");
    assert!(filter.valid());
    let filter = request.filter_http::<DefaultHandlers>().filter_header("key", "!value");
    assert!(!filter.valid());
}

#[test]
fn test_query() {
    let mut request = base_request();
    request.query = Some("one=two&three=four&one%2Bone=two".to_string());
    let filter = request.filter_http::<DefaultHandlers>().filter_query("one", "two");
    assert!(filter.valid());
    let filter = request.filter_http::<DefaultHandlers>().filter_query("three", "four");
    assert!(filter.valid());
    let filter = request.filter_http::<DefaultHandlers>().filter_query("one", "three");
    assert!(!filter.valid());
    let filter = request.filter_http::<DefaultHandlers>().filter_query("five", "six");
    assert!(!filter.valid());
    let filter = request.filter_http::<DefaultHandlers>().filter_query("one+one", "two");
    assert!(filter.valid());
}

#[test]
fn test_method() {
    let mut request = base_request();
    request.method = "POST".to_string();
    let filter = request.filter_http::<DefaultHandlers>().filter_method("POST");
    assert!(filter.valid());
    let filter = request.filter_http::<DefaultHandlers>().filter_method("POST");
    assert!(filter.valid());
    let filter = request.filter_http::<DefaultHandlers>().filter_method("GET");
    assert!(!filter.valid());
}

#[test]
fn filter_test_custom() {
    let request = base_request();
    let filter = request.filter_http::<DefaultHandlers>().filter_custom(|_| true);
    assert!(filter.valid());
    let filter = request.filter_http::<DefaultHandlers>().filter_custom(|_| false);
    assert!(!filter.valid());
}

#[test]
fn test_scheme() {
    let request = base_request();
    let filter = request.filter_http::<DefaultHandlers>().filter_scheme("https");
    assert!(filter.valid());
    let filter = request.filter_http::<DefaultHandlers>().filter_scheme("http");
    assert!(!filter.valid());
}

#[test]
fn test_multiple_filters() {
    let mut request = base_request();
    request.method = "POST".to_string();
    let filter = request
        .filter_http::<DefaultHandlers>()
        .filter_scheme("https")
        .filter_method("POST");
    assert!(filter.valid());
    let filter = request
        .filter_http::<DefaultHandlers>()
        .filter_scheme("http")
        .filter_method("GET");
    assert!(!filter.valid());
}

#[test]
fn test_port() {
    let mut request = base_request();
    request.port = Some(200);
    assert!(request.filter_http::<DefaultHandlers>().filter_port(200).valid());
    assert!(!request.filter_http::<DefaultHandlers>().filter_port(404).valid());
    let request = base_request();
    assert!(!request.filter_http::<DefaultHandlers>().filter_port(200).valid());
}

#[test]
fn test_optional_header_key() {
    let request = base_request();
    assert!(request.filter_http::<DefaultHandlers>().filter_header("?missing", "{}").valid());
    assert!(!request.filter_http::<DefaultHandlers>().filter_header("missing", "{}").valid());
    let mut request = base_request();
    request.headers.push(("key".to_string(), "value".to_string()));
    assert!(request.filter_http::<DefaultHandlers>().filter_header("?key", "value").valid());
    assert!(!request.filter_http::<DefaultHandlers>().filter_header("?key", "other").valid());
}

#[test]
fn test_header_value_patterns() {
    let mut request = base_request();
    request.headers.push(("accept".to_string(), "text".to_string()));
    assert!(request.filter_http::<DefaultHandlers>().filter_header("accept", "{}").valid());
    assert!(
        request.filter_http::<DefaultHandlers>().filter_header("accept", "{json|text}").valid()
    );
    assert!(
        !request.filter_http::<DefaultHandlers>().filter_header("accept", "{json|xml}").valid()
    );
}

#[test]
fn test_header_any_value_for_key() {
    // several values under one key: any acceptable value passes
    let mut request = base_request();
    request.headers.push(("k".to_string(), "a".to_string()));
    request.headers.push(("k".to_string(), "b".to_string()));
    assert!(request.filter_http::<DefaultHandlers>().filter_header("k", "b").valid());
    assert!(!request.filter_http::<DefaultHandlers>().filter_header("k", "c").valid());
}

#[test]
fn test_optional_query_key() {
    let request = base_request();
    assert!(request.filter_http::<DefaultHandlers>().filter_query("?foo", "bar").valid());
    assert!(!request.filter_http::<DefaultHandlers>().filter_query("foo", "bar").valid());
}

#[test]
fn test_query_wildcard_value() {
    let mut request = base_request();
    request.query = Some("one=two".to_string());
    assert!(request.filter_http::<DefaultHandlers>().filter_query("one", "{}").valid());
    assert!(!request.filter_http::<DefaultHandlers>().filter_query("two", "{}").valid());
}

#[test]
fn test_malformed_query_fragment_ignored() {
    let mut request = base_request();
    request.query = Some("one=two&bad&three=four".to_string());
    assert!(request.filter_http::<DefaultHandlers>().filter_query("one", "two").valid());
    assert!(request.filter_http::<DefaultHandlers>().filter_query("three", "four").valid());
    assert!(!request.filter_http::<DefaultHandlers>().filter_query("bad", "").valid());
    let pairs = query_iter(&request);
    assert_eq!(
        pairs,
        vec![
            (b"one".to_vec(), b"two".to_vec()),
            (b"three".to_vec(), b"four".to_vec()),
        ]
    );
}

#[test]
fn test_query_value_keeps_later_equals() {
    // a piece splits at its first '='; the value keeps the rest
    let mut request = base_request();
    request.query = Some("a=b=c".to_string());
    assert!(request.filter_http::<DefaultHandlers>().filter_query("a", "b=c").valid());
    assert!(!request.filter_http::<DefaultHandlers>().filter_query("a", "b").valid());
    let pairs = query_iter(&request);
    assert_eq!(pairs, vec![(b"a".to_vec(), b"b=c".to_vec())]);
}

#[test]
fn test_header_key_case_insensitive() {
    let mut request = base_request();
    request.headers.push(("content-type".to_string(), "text/html".to_string()));
    assert!(
        request
            .filter_http::<DefaultHandlers>()
            .filter_header("Content-Type", "text/html")
            .valid()
    );
    assert!(
        request.filter_http::<DefaultHandlers>().filter_header("CONTENT-TYPE", "{}").valid()
    );
    // values stay case-sensitive
    assert!(
        !request
            .filter_http::<DefaultHandlers>()
            .filter_header("content-type", "TEXT/HTML")
            .valid()
    );
}

#[test]
fn test_first_matching_query_key_decides() {
    let mut request = base_request();
    request.query = Some("k=a&k=b".to_string());
    assert!(request.filter_http::<DefaultHandlers>().filter_query("k", "a").valid());
    assert!(!request.filter_http::<DefaultHandlers>().filter_query("k", "b").valid());
}

#[test]
fn test_error_kinds() {
    let request = base_request();
    let f = request.filter_http::<DefaultHandlers>().filter_path("/x");
    assert_eq!(f.error, Some(FilterError::FailFilterPath));
    let f = request.filter_http::<DefaultHandlers>().filter_method("POST");
    assert_eq!(f.error, Some(FilterError::FailFilterMethod));
    let f = request.filter_http::<DefaultHandlers>().filter_scheme("http");
    assert_eq!(f.error, Some(FilterError::FailFilterScheme));
    let f = request.filter_http::<DefaultHandlers>().filter_port(80);
    assert_eq!(f.error, Some(FilterError::FailFilterPort));
    let f = request.filter_http::<DefaultHandlers>().filter_header("k", "v");
    assert_eq!(f.error, Some(FilterError::FailFilterHeader));
    let f = request.filter_http::<DefaultHandlers>().filter_query("k", "v");
    assert_eq!(f.error, Some(FilterError::FailFilterQuery));
    let f = request.filter_http::<DefaultHandlers>().filter_custom(|_| false);
    assert_eq!(f.error, Some(FilterError::FailFilterCustom));
}

#[test]
fn test_first_failure_is_kept() {
    let request = base_request();
    let f = request
        .filter_http::<DefaultHandlers>()
        .filter_method("POST")
        .filter_path("/x");
    assert_eq!(f.error, Some(FilterError::FailFilterMethod));
    assert_eq!(f.pass_throughs, 1);
}
