use alibabacloud::redact::{body_snippet, is_sensitive_key, maybe_body_snippet};

#[test]
fn json_secret_fields_are_scrubbed() {
    let body =
        br#"{"Code":"SignatureDoesNotMatch","Message":"bad signature","AccessKeySecret":"supersecret"}"#
            .to_vec();
    let snippet = body_snippet(&body, 4096).unwrap();
    assert!(!snippet.contains("supersecret"));
    assert!(snippet.contains("<redacted>"));
    assert!(snippet.contains("SignatureDoesNotMatch"));
}

#[test]
fn nested_secret_fields_are_scrubbed() {
    let body = br#"{"outer":{"password":"p","values":[{"token":"t"}]},"ok":1}"#.to_vec();
    let snippet = body_snippet(&body, 4096).unwrap();
    assert!(!snippet.contains("\"p\""));
    assert!(!snippet.contains("\"t\""));
    assert!(snippet.contains("\"ok\":1"));
}

#[test]
fn sensitive_plain_text_is_withheld() {
    let body = b"the secret is here".to_vec();
    assert_eq!(body_snippet(&body, 4096).unwrap(), "<redacted>");
}

#[test]
fn harmless_plain_text_passes_through() {
    let body = b"temporary".to_vec();
    assert_eq!(body_snippet(&body, 4096).unwrap(), "temporary");
}

#[test]
fn truncation_applies_before_interpretation() {
    let body = b"abcdefgh".to_vec();
    assert_eq!(body_snippet(&body, 4).unwrap(), "abcd");
}

#[test]
fn empty_body_or_zero_bound_yields_nothing() {
    assert!(body_snippet(&Vec::new(), 4096).is_none());
    assert!(body_snippet(&b"x".to_vec(), 0).is_none());
}

#[test]
fn disabled_capture_yields_nothing() {
    let body = br#"{"token":"leak"}"#.to_vec();
    assert!(maybe_body_snippet(false, &body, 4096).is_none());
    assert!(maybe_body_snippet(true, &body, 4096).is_some());
}

#[test]
fn sensitive_key_set_is_case_insensitive() {
    assert!(is_sensitive_key(&b"AccessKeySecret".to_vec()));
    assert!(is_sensitive_key(&b"SECRET".to_vec()));
    assert!(is_sensitive_key(&b"client_secret".to_vec()));
    assert!(is_sensitive_key(&b"Authorization".to_vec()));
    assert!(!is_sensitive_key(&b"Code".to_vec()));
    assert!(!is_sensitive_key(&b"RequestId".to_vec()));
}
