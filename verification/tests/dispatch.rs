use http_tools::request::{
    DefaultHandlers, FilterError, HttpVersion, KindHandler, RequestData,
};
use http_tools::response::ResponseData;

fn base_request() -> RequestData {
    let mut r = RequestData::new();
    r.scheme = Some("https".to_string());
    r
}

fn resp(status: u16, body: &str) -> ResponseData {
    ResponseData {
        status,
        version: HttpVersion::Http11,
        headers: vec![],
        body: body.as_bytes().to_vec(),
    }
}

#[test]
fn test_on_fail() {
    let request = base_request();
    let response = request
        .filter_http()
        .commit()
        .filter_custom(|_| false)
        .on_fail(ResponseData::from_status(400))
        .handle(|_| Ok(resp(200, "Hello World")));
    let response = response.unwrap().unwrap();
    assert!(response.status == 400);
}

#[test]
fn test_on_fail_first_fail() {
    let request = base_request();
    let response = request
        .filter_http()
        .commit()
        .filter_custom(|_| false)
        .on_fail(ResponseData::from_status(400))
        .filter_custom(|_| false)
        .on_fail(ResponseData::from_status(401))
        .handle(|_| Ok(resp(200, "Hello World")));
    let response = response.unwrap().unwrap();
    assert!(response.status == 400);
}

#[test]
fn test_on_fail_first_pass() {
    let request = base_request();
    let response = request
        .filter_http()
        .commit()
        .filter_custom(|_| true)
        .on_fail(ResponseData::from_status(400))
        .filter_custom(|_| false)
        .on_fail(ResponseData::from_status(401))
        .handle(|_| Ok(resp(200, "Hello World")));
    let response = response.unwrap().unwrap();
    assert!(response.status == 401);
}

#[test]
fn test_on_fail_first_pass_second_pass() {
    let request = base_request();
    let response = request
        .filter_http()
        .commit()
        .filter_custom(|_| true)
        .on_fail(ResponseData::from_status(400))
        .filter_custom(|_| true)
        .on_fail(ResponseData::from_status(401))
        .handle(|_| Ok(resp(200, "Hello World")));
    let response = response.unwrap().unwrap();
    assert!(response.status == 200);
}

#[test]
fn test_on_fail_first_fail_second_pass() {
    let request = base_request();
    let response = request
        .filter_http()
        .commit()
        .filter_custom(|_| false)
        .on_fail(ResponseData::from_status(400))
        .filter_custom(|_| true)
        .on_fail(ResponseData::from_status(401))
        .handle(|_| Ok(resp(200, "Hello World")));
    let response = response.unwrap().unwrap();
    assert!(response.status == 400);
}

#[test]
fn filter_test_handler() {
    let request = base_request();
    let response = request
        .filter_http::<DefaultHandlers>()
        .handle(|_| Ok(resp(200, "Hello World")));
    let response = response.unwrap().unwrap();
    assert!(response.status == 200);
    assert!(response.body == b"Hello World".to_vec());
}

#[test]
fn test_default_handler() {
    let request = base_request();
    let response = request
        .filter_http::<DefaultHandlers>()
        .filter_path("/")
        .commit()
        .filter_method("POST")
        .handle(|_| Ok(resp(200, "Hello World")));
    let response = response.unwrap().unwrap();
    assert!(response.status == 405);
    assert!(response.body == Vec::<u8>::new());
    assert_eq!(
        response.headers,
        vec![("Content-Length".to_string(), "0".to_string())]
    );
}

#[test]
fn test_failed_test() {
    let request = base_request();
    let response = request
        .filter_http::<DefaultHandlers>()
        .filter_path("/path")
        .commit()
        .filter_method("POST")
        .handle(|_| Ok(resp(200, "Hello World")));
    assert!(response.is_err());
}

#[test]
fn test_failed_twice_test() {
    let request = base_request();
    let response = request
        .filter_http::<DefaultHandlers>()
        .filter_path("/path")
        .commit()
        .filter_method("POST")
        .handle(|_| Ok(resp(200, "Hello World")));
    assert!(response.is_err());
}

#[test]
fn test_custom_handlers() {
    let request = base_request();
    let response = request
        .filter_http()
        .commit()
        .filter_custom(|_| false)
        .filter_method("POST")
        .set_error_handler(KindHandler {
            kind: FilterError::FailFilterCustom,
            response: ResponseData::from_status(418),
        })
        .handle(|_| Ok(resp(200, "")));
    assert!(response.unwrap().unwrap().status == 418);
}

#[test]
fn test_set_error_handler_first_write_wins() {
    let request = base_request();
    let response = request
        .filter_http()
        .commit()
        .filter_custom(|_| false)
        .set_error_handler(ResponseData::from_status(401))
        .set_error_handler(ResponseData::from_status(402))
        .handle(|_| Ok(resp(200, "")));
    assert!(response.unwrap().unwrap().status == 401);
}

#[test]
fn test_uncommitted_failure_is_unhandled() {
    let request = base_request();
    let response = request
        .filter_http::<DefaultHandlers>()
        .filter_custom(|_| false)
        .filter_method("GET")
        .handle(|_| Ok(resp(200, "")));
    assert!(matches!(response, Err(FilterError::FailFilterCustom)));
}

#[test]
fn test_commit_then_fail_yields_default_statuses() {
    let request = base_request();
    let r = request
        .filter_http::<DefaultHandlers>()
        .commit()
        .filter_path("/nope")
        .handle(|_| Ok(resp(200, "")));
    assert!(r.unwrap().unwrap().status == 404);
    let r = request
        .filter_http::<DefaultHandlers>()
        .commit()
        .filter_method("POST")
        .handle(|_| Ok(resp(200, "")));
    assert!(r.unwrap().unwrap().status == 405);
    let r = request
        .filter_http::<DefaultHandlers>()
        .commit()
        .filter_scheme("http")
        .handle(|_| Ok(resp(200, "")));
    assert!(r.unwrap().unwrap().status == 400);
}

#[test]
fn test_independent_chains_agree() {
    // two chains built from one request by the same filter sequence
    // resolve identically
    let request = base_request();
    let first = request
        .filter_http::<DefaultHandlers>()
        .filter_path("/")
        .commit()
        .filter_method("POST")
        .handle(|_| Ok(resp(200, "Hello World")));
    let second = request
        .filter_http::<DefaultHandlers>()
        .filter_path("/")
        .commit()
        .filter_method("POST")
        .handle(|_| Ok(resp(200, "Hello World")));
    let first = first.unwrap().unwrap();
    let second = second.unwrap().unwrap();
    assert_eq!(first.status, second.status);
    assert_eq!(first.body, second.body);
    assert_eq!(first.headers, second.headers);
}

#[test]
fn test_handler_failure_propagates() {
    // a handler's own failure is surfaced, not treated as a filter failure
    let request = base_request();
    let response = request.filter_http::<DefaultHandlers>().handle(|_| {
        Err(http_tools::request::HandlerFailure {
            status: Some(418),
            message: "kettle trouble".to_string(),
        })
    });
    let inner = response.unwrap();
    let failure = inner.unwrap_err();
    assert_eq!(failure.status, Some(418));
    assert_eq!(failure.message, "kettle trouble");
}
