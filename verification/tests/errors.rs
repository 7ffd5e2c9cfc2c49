use alibabacloud::auth::{Auth, SecretString};
use alibabacloud::error::{Error, ErrorInfo, TransportFailure};

fn info_with_status(status: Option<u16>) -> ErrorInfo {
    ErrorInfo {
        status,
        method: Some("GET".to_owned()),
        path: Some("/".to_owned()),
        message: Some("m".to_owned()),
        request_id: Some("rid".to_owned()),
        body_snippet: None,
    }
}

#[test]
fn rate_limited_and_transport_errors_are_always_retryable() {
    let rate = Error::RateLimited {
        info: info_with_status(Some(429)),
        retry_after_ms: Some(1000),
    };
    assert!(rate.is_retryable());

    let transport = Error::Transport {
        info: info_with_status(None),
        source: TransportFailure {
            message: "refused".to_owned(),
            retryable: true,
        },
    };
    assert!(transport.is_retryable());
}

#[test]
fn status_classified_errors_are_retryable_only_for_retryable_statuses() {
    for status in [429u16, 502, 503, 504] {
        let e = Error::Api {
            info: info_with_status(Some(status)),
        };
        assert!(e.is_retryable());
    }
    for status in [200u16, 400, 401, 403, 404, 409, 412, 500] {
        let e = Error::Api {
            info: info_with_status(Some(status)),
        };
        assert!(!e.is_retryable());
    }
    let auth_503 = Error::Auth {
        info: info_with_status(Some(503)),
    };
    assert!(auth_503.is_retryable());
}

#[test]
fn decode_and_config_errors_are_never_retryable() {
    let decode = Error::Decode {
        info: info_with_status(Some(503)),
    };
    assert!(!decode.is_retryable());

    let config = Error::InvalidConfig {
        message: "bad".to_owned(),
    };
    assert!(!config.is_retryable());
}

#[test]
fn getters_surface_the_carried_diagnostics() {
    let e = Error::NotFound {
        info: info_with_status(Some(404)),
    };
    assert_eq!(e.status(), Some(404));
    assert_eq!(e.method().as_deref(), Some("GET"));
    assert_eq!(e.path().as_deref(), Some("/"));
    assert_eq!(e.message().as_deref(), Some("m"));
    assert_eq!(e.request_id().as_deref(), Some("rid"));
    assert!(e.body_snippet().is_none());
    assert!(!e.is_auth_error());
}

#[test]
fn describe_includes_available_diagnostics() {
    let e = Error::Auth {
        info: info_with_status(Some(403)),
    };
    assert_eq!(
        e.describe(),
        "authentication failed (status=403, request=GET /, request_id=rid, message=m)"
    );

    let bare = Error::Api {
        info: ErrorInfo {
            status: None,
            method: None,
            path: None,
            message: None,
            request_id: None,
            body_snippet: None,
        },
    };
    assert_eq!(bare.describe(), "api error");

    let config = Error::InvalidConfig {
        message: "bad".to_owned(),
    };
    assert_eq!(config.describe(), "invalid configuration: bad");
}

#[test]
fn secret_strings_only_render_as_the_placeholder() {
    let secret = SecretString::new("topsecret".to_owned());
    assert_eq!(secret.redacted(), "<redacted>");
    assert_eq!(secret.expose(), "topsecret");

    match Auth::access_key("id".to_owned(), "topsecret".to_owned()) {
        Auth::AccessKey(key) => {
            assert_eq!(key.id(), "id");
            assert_eq!(key.secret().redacted(), "<redacted>");
        }
        Auth::Anonymous => panic!("expected access key auth"),
    }
}
