use alibabacloud::baseurl::{endpoint, parse_base_url};

#[test]
fn parse_base_url_requires_no_query_or_fragment() {
    assert!(parse_base_url("https://example.com/?a=b").is_err());
    assert!(parse_base_url("https://example.com/#frag").is_err());
}

#[test]
fn parse_base_url_normalizes_trailing_slash() {
    let url = parse_base_url("https://example.com/api").unwrap();
    assert_eq!(url.as_string(), "https://example.com/api/");
}

#[test]
fn endpoint_pushes_encoded_path_segments() {
    let base = parse_base_url("https://example.com/api").unwrap();
    let segments = vec!["a".to_owned(), "b c".to_owned(), "d/e".to_owned()];
    let (_, path) = endpoint(&base, &segments).unwrap();
    assert_eq!(path, "/api/a/b%20c/d%2Fe");
}

#[test]
fn parse_base_url_rejects_non_hierarchical_text() {
    assert!(parse_base_url("not a url").is_err());
    assert!(parse_base_url("https://").is_err());
    assert!(parse_base_url("1https://example.com/").is_err());
}

#[test]
fn endpoint_with_no_segments_keeps_root_and_drops_trailing_slash() {
    let root = parse_base_url("https://sts.example.com/").unwrap();
    let (full, path) = endpoint(&root, &Vec::new()).unwrap();
    assert_eq!(path, "/");
    assert_eq!(full, "https://sts.example.com/");

    let api = parse_base_url("https://example.com/api/").unwrap();
    let (full, path) = endpoint(&api, &Vec::new()).unwrap();
    assert_eq!(path, "/api");
    assert_eq!(full, "https://example.com/api");
}
