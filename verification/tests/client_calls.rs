use std::cell::{Cell, RefCell};
use std::collections::VecDeque;

use alibabacloud::auth::Auth;
use alibabacloud::client::BlockingClientBuilder;
use alibabacloud::error::TransportFailure;
use alibabacloud::transport::{BlockingTransport, Request, Response};
use alibabacloud::types::DescribeRegionsParams;

const STS_IDENTITY_BODY: &str = r#"{"IdentityType":"Account","RequestId":"req","AccountId":"1","PrincipalId":"p","UserId":"u","Arn":"arn","RoleId":null}"#;

struct MockBlockingTransport {
    calls: Cell<usize>,
    requests: RefCell<Vec<Request>>,
    responses: RefCell<VecDeque<Response>>,
}

impl MockBlockingTransport {
    fn new(responses: Vec<Response>) -> Self {
        Self {
            calls: Cell::new(0),
            requests: RefCell::new(Vec::new()),
            responses: RefCell::new(responses.into()),
        }
    }

    fn calls(&self) -> usize {
        self.calls.get()
    }

    fn last_request(&self) -> Option<Request> {
        self.requests.borrow().last().cloned()
    }

    fn request_urls(&self) -> Vec<String> {
        self.requests.borrow().iter().map(|r| r.url.clone()).collect()
    }
}

impl BlockingTransport for &MockBlockingTransport {
    fn send(&self, request: &Request) -> Result<Response, TransportFailure> {
        self.calls.set(self.calls.get() + 1);
        self.requests.borrow_mut().push(request.clone());

        match self.responses.borrow_mut().pop_front() {
            Some(response) => Ok(response),
            None => Err(TransportFailure {
                message: "no more mock responses".to_owned(),
                retryable: false,
            }),
        }
    }

    fn sleep_ms(&self, _delay_ms: u64) {}
}

fn response(status: u16, headers: Vec<(String, String)>, body: &str) -> Response {
    Response {
        status,
        headers,
        body: body.as_bytes().to_vec(),
    }
}

#[test]
fn blocking_client_sts_error_body_is_classified_and_redacted() {
    let headers = vec![("x-acs-request-id".to_owned(), "header-request-id".to_owned())];
    let transport = MockBlockingTransport::new(vec![response(
        200,
        headers,
        r#"{"Code":"SignatureDoesNotMatch","Message":"bad signature","RequestId":"body-request-id","AccessKeySecret":"supersecret"}"#,
    )]);

    let client = BlockingClientBuilder::new()
        .auth(Auth::access_key("id".to_owned(), "secret".to_owned()))
        .sts_endpoint("https://sts.example.com/".to_owned())
        .build_with_transport(&transport)
        .unwrap();

    let err = client.sts().get_caller_identity().unwrap_err();
    assert!(err.is_auth_error());
    assert_eq!(err.status(), Some(200));
    assert_eq!(err.request_id().as_deref(), Some("header-request-id"));

    let snippet = err.body_snippet().unwrap();
    assert!(!snippet.contains("supersecret"));
}

#[test]
fn blocking_client_retry_on_503_then_succeeds() {
    let transport = MockBlockingTransport::new(vec![
        response(503, Vec::new(), "temporary"),
        response(200, Vec::new(), STS_IDENTITY_BODY),
    ]);

    let client = BlockingClientBuilder::new()
        .auth(Auth::access_key("id".to_owned(), "secret".to_owned()))
        .max_retries(1)
        .retry_base_delay_ms(0)
        .retry_max_delay_ms(0)
        .build_with_transport(&transport)
        .unwrap();

    let ok = client.sts().get_caller_identity().unwrap();
    assert_eq!(ok.request_id, "req");
    assert_eq!(transport.calls(), 2);
}

#[test]
fn each_retry_attempt_is_signed_afresh() {
    let transport = MockBlockingTransport::new(vec![
        response(503, Vec::new(), "temporary"),
        response(200, Vec::new(), STS_IDENTITY_BODY),
    ]);

    let client = BlockingClientBuilder::new()
        .auth(Auth::access_key("id".to_owned(), "secret".to_owned()))
        .max_retries(1)
        .retry_base_delay_ms(0)
        .retry_max_delay_ms(0)
        .build_with_transport(&transport)
        .unwrap();

    let _ = client.sts().get_caller_identity().unwrap();

    let urls = transport.request_urls();
    assert_eq!(urls.len(), 2);
    // A fresh nonce per attempt means a fresh signature per attempt: the
    // two sent URLs must differ.
    assert_ne!(urls[0], urls[1]);
    let nonce = |url: &str| {
        url.split('&')
            .find(|p| p.starts_with("SignatureNonce="))
            .map(|p| p.to_owned())
    };
    assert_ne!(nonce(&urls[0]), nonce(&urls[1]));
}

#[test]
fn blocking_client_capture_body_snippet_can_be_disabled() {
    let transport = MockBlockingTransport::new(vec![response(
        200,
        Vec::new(),
        r#"{"Code":"SignatureDoesNotMatch","Message":"bad signature","RequestId":"req","AccessKeySecret":"supersecret"}"#,
    )]);

    let client = BlockingClientBuilder::new()
        .auth(Auth::access_key("id".to_owned(), "secret".to_owned()))
        .capture_body_snippet(false)
        .build_with_transport(&transport)
        .unwrap();

    let err = client.sts().get_caller_identity().unwrap_err();
    assert!(err.body_snippet().is_none());
}

#[test]
fn blocking_client_request_includes_required_rpc_query_params() {
    let transport = MockBlockingTransport::new(vec![response(200, Vec::new(), "{}")]);

    let client = BlockingClientBuilder::new()
        .auth(Auth::access_key("id".to_owned(), "secret".to_owned()))
        .ecs_endpoint("https://ecs.example.com/".to_owned())
        .build_with_transport(&transport)
        .unwrap();

    let _ = client.ecs().describe_regions(DescribeRegionsParams::default()).unwrap();

    let request = transport.last_request().unwrap();
    let query = request.url.split('?').nth(1).unwrap();
    assert!(query.contains("Action=DescribeRegions"));
    assert!(query.contains("SignatureMethod=HMAC-SHA1"));
    assert!(query.contains("SignatureNonce="));
    assert!(query.contains("Signature="));
    assert!(query.contains("Version=2014-05-26"));
    assert!(query.contains("Format=JSON"));
    assert!(query.contains("AccessKeyId=id"));
}

#[test]
fn status_400_is_never_retried() {
    let transport = MockBlockingTransport::new(vec![response(400, Vec::new(), "bad request")]);

    let client = BlockingClientBuilder::new()
        .auth(Auth::access_key("id".to_owned(), "secret".to_owned()))
        .max_retries(3)
        .retry_base_delay_ms(0)
        .retry_max_delay_ms(0)
        .build_with_transport(&transport)
        .unwrap();

    let err = client.sts().get_caller_identity().unwrap_err();
    assert_eq!(err.status(), Some(400));
    assert_eq!(transport.calls(), 1);
}

#[test]
fn non_retryable_transport_failures_are_not_retried() {
    // The mock fails every attempt with a non-retryable failure.
    let transport = MockBlockingTransport::new(Vec::new());

    let client = BlockingClientBuilder::new()
        .auth(Auth::access_key("id".to_owned(), "secret".to_owned()))
        .max_retries(2)
        .retry_base_delay_ms(0)
        .retry_max_delay_ms(0)
        .build_with_transport(&transport)
        .unwrap();

    let err = client.sts().get_caller_identity().unwrap_err();
    assert!(err.is_retryable());
    assert_eq!(transport.calls(), 1);
}

#[test]
fn retryable_transport_failures_are_retried_up_to_the_bound() {
    let transport = FailingTransport {
        calls: Cell::new(0),
    };

    let client = BlockingClientBuilder::new()
        .auth(Auth::access_key("id".to_owned(), "secret".to_owned()))
        .max_retries(2)
        .retry_base_delay_ms(0)
        .retry_max_delay_ms(0)
        .build_with_transport(&transport)
        .unwrap();

    let err = client.sts().get_caller_identity().unwrap_err();
    assert!(err.is_retryable());
    assert_eq!(err.path().as_deref(), Some("/"));
    assert_eq!(transport.calls.get(), 3);
}

struct FailingTransport {
    calls: Cell<usize>,
}

impl BlockingTransport for &FailingTransport {
    fn send(&self, _request: &Request) -> Result<Response, TransportFailure> {
        self.calls.set(self.calls.get() + 1);
        Err(TransportFailure {
            message: "connection refused".to_owned(),
            retryable: true,
        })
    }

    fn sleep_ms(&self, _delay_ms: u64) {}
}

#[test]
fn missing_access_key_is_a_configuration_error() {
    let transport = MockBlockingTransport::new(vec![response(200, Vec::new(), "{}")]);

    let client = BlockingClientBuilder::new()
        .build_with_transport(&transport)
        .unwrap();

    let err = client.sts().get_caller_identity().unwrap_err();
    assert!(err.describe().starts_with("invalid configuration"));
    assert_eq!(transport.calls(), 0);
}

#[test]
fn invalid_base_url_is_rejected_at_build_time() {
    let transport = MockBlockingTransport::new(Vec::new());
    let result = BlockingClientBuilder::new()
        .sts_endpoint("https://sts.example.com/?a=b".to_owned())
        .build_with_transport(&transport);
    assert!(result.is_err());
}

#[test]
fn inverted_retry_delays_are_rejected_at_build_time() {
    let transport = MockBlockingTransport::new(Vec::new());
    let result = BlockingClientBuilder::new()
        .retry_base_delay_ms(500)
        .retry_max_delay_ms(100)
        .build_with_transport(&transport);
    let err = result.err().unwrap();
    assert!(err.describe().starts_with("invalid configuration"));
}

#[test]
fn vendor_error_with_auth_code_is_auth_even_on_200() {
    let transport = MockBlockingTransport::new(vec![response(
        200,
        Vec::new(),
        r#"{"Code":"SignatureDoesNotMatch","Message":"nope"}"#,
    )]);

    let client = BlockingClientBuilder::new()
        .auth(Auth::access_key("id".to_owned(), "secret".to_owned()))
        .build_with_transport(&transport)
        .unwrap();

    let err = client.sts().get_caller_identity().unwrap_err();
    assert!(err.is_auth_error());
    assert_eq!(err.message().as_deref(), Some("SignatureDoesNotMatch: nope"));
}

#[test]
fn vendor_error_with_other_code_is_api_error() {
    let transport = MockBlockingTransport::new(vec![response(
        200,
        Vec::new(),
        r#"{"Code":"Throttling","Message":"slow down"}"#,
    )]);

    let client = BlockingClientBuilder::new()
        .auth(Auth::access_key("id".to_owned(), "secret".to_owned()))
        .build_with_transport(&transport)
        .unwrap();

    let err = client.sts().get_caller_identity().unwrap_err();
    assert!(!err.is_auth_error());
    assert_eq!(err.message().as_deref(), Some("Throttling: slow down"));
}

#[test]
fn http_status_404_classifies_as_not_found() {
    let transport = MockBlockingTransport::new(vec![response(404, Vec::new(), "missing")]);

    let client = BlockingClientBuilder::new()
        .auth(Auth::access_key("id".to_owned(), "secret".to_owned()))
        .build_with_transport(&transport)
        .unwrap();

    let err = client.sts().get_caller_identity().unwrap_err();
    assert_eq!(err.status(), Some(404));
    assert!(!err.is_retryable());
    assert_eq!(err.message().as_deref(), Some("http status 404"));
    assert!(err.describe().starts_with("resource not found"));
}

#[test]
fn http_status_409_classifies_as_conflict() {
    let transport = MockBlockingTransport::new(vec![response(409, Vec::new(), "conflict")]);

    let client = BlockingClientBuilder::new()
        .auth(Auth::access_key("id".to_owned(), "secret".to_owned()))
        .build_with_transport(&transport)
        .unwrap();

    let err = client.sts().get_caller_identity().unwrap_err();
    assert_eq!(err.status(), Some(409));
    assert!(err.describe().starts_with("request conflict"));
}

#[test]
fn http_status_429_classifies_as_rate_limited_and_is_retryable() {
    let headers = vec![("Retry-After".to_owned(), "2".to_owned())];
    let transport = MockBlockingTransport::new(vec![response(429, headers, "slow down")]);

    let client = BlockingClientBuilder::new()
        .auth(Auth::access_key("id".to_owned(), "secret".to_owned()))
        .max_retries(0)
        .build_with_transport(&transport)
        .unwrap();

    let err = client.sts().get_caller_identity().unwrap_err();
    assert_eq!(err.status(), Some(429));
    assert!(err.is_retryable());
    assert!(err.describe().starts_with("rate limited (retry-after-ms=2000)"));
}

#[test]
fn malformed_success_payload_is_a_decode_error() {
    let headers = vec![("x-request-id".to_owned(), "rid-7".to_owned())];
    let transport = MockBlockingTransport::new(vec![response(200, headers, "not json")]);

    let client = BlockingClientBuilder::new()
        .auth(Auth::access_key("id".to_owned(), "secret".to_owned()))
        .build_with_transport(&transport)
        .unwrap();

    let err = client.sts().get_caller_identity().unwrap_err();
    assert!(!err.is_retryable());
    assert_eq!(err.status(), Some(200));
    assert_eq!(err.request_id().as_deref(), Some("rid-7"));
    assert_eq!(err.message().as_deref(), Some("decode failed at ."));
    assert!(err.describe().starts_with("decode error"));
}

#[test]
fn decode_errors_name_the_mismatched_field() {
    let transport = MockBlockingTransport::new(vec![response(
        200,
        Vec::new(),
        r#"{"IdentityType":"Account","RequestId":"req"}"#,
    )]);

    let client = BlockingClientBuilder::new()
        .auth(Auth::access_key("id".to_owned(), "secret".to_owned()))
        .build_with_transport(&transport)
        .unwrap();

    let err = client.sts().get_caller_identity().unwrap_err();
    assert_eq!(err.message().as_deref(), Some("decode failed at AccountId"));
}
