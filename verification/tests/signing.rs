use alibabacloud::encode::aliyun_percent_encode;
use alibabacloud::params::{build_canonicalized_query, ParamMap};
use alibabacloud::sign::{calculate_signature, signature};

#[test]
fn percent_encode_uses_rfc3986_unreserved_set() {
    assert_eq!(aliyun_percent_encode("a b"), "a%20b");
    assert_eq!(aliyun_percent_encode("~"), "~");
    assert_eq!(aliyun_percent_encode(":"), "%3A");
    assert_eq!(aliyun_percent_encode("/"), "%2F");
}

#[test]
fn canonical_query_is_sorted_and_encoded() {
    let mut params = ParamMap::new();
    params.insert("b", "2");
    params.insert("a", "1");
    params.insert("space", "a b");

    assert_eq!(build_canonicalized_query(&params), "a=1&b=2&space=a%20b");
}

#[test]
fn signature_matches_known_vector() {
    let mut params = ParamMap::new();
    params.insert("AccessKeyId", "testid");
    params.insert("Action", "DescribeRegions");
    params.insert("Format", "JSON");
    params.insert("RegionId", "cn-hangzhou");
    params.insert("SignatureMethod", "HMAC-SHA1");
    params.insert("SignatureNonce", "testnonce");
    params.insert("SignatureVersion", "1.0");
    params.insert("Timestamp", "2015-01-01T12:00:00Z");
    params.insert("Version", "2014-05-26");

    let canonical = build_canonicalized_query(&params);
    assert_eq!(
        canonical,
        "AccessKeyId=testid&Action=DescribeRegions&Format=JSON&RegionId=cn-hangzhou&SignatureMethod=HMAC-SHA1&SignatureNonce=testnonce&SignatureVersion=1.0&Timestamp=2015-01-01T12%3A00%3A00Z&Version=2014-05-26"
    );

    let sig = signature("GET", &canonical, "testsecret").unwrap();
    assert_eq!(sig, "D93NxUhhlH206jRKH5QQOSAUcT4=");

    let sig2 = calculate_signature(&params, "testsecret");
    assert_eq!(sig2, "D93NxUhhlH206jRKH5QQOSAUcT4=");
}

#[test]
fn signature_is_deterministic() {
    let a = signature("GET", "a=1&b=2", "secret").unwrap();
    let b = signature("GET", "a=1&b=2", "secret").unwrap();
    assert_eq!(a, b);
}

#[test]
fn canonicalization_is_order_independent() {
    let mut first = ParamMap::new();
    first.insert("Version", "2014-05-26");
    first.insert("Action", "DescribeRegions");
    first.insert("Format", "JSON");

    let mut second = ParamMap::new();
    second.insert("Format", "JSON");
    second.insert("Version", "2014-05-26");
    second.insert("Action", "DescribeRegions");

    assert_eq!(
        build_canonicalized_query(&first),
        build_canonicalized_query(&second)
    );
    assert_eq!(
        build_canonicalized_query(&first),
        "Action=DescribeRegions&Format=JSON&Version=2014-05-26"
    );
}

#[test]
fn canonical_query_of_empty_map_is_empty() {
    let params = ParamMap::new();
    assert_eq!(build_canonicalized_query(&params), "");
}

#[test]
fn insert_overwrites_existing_key() {
    let mut params = ParamMap::new();
    params.insert("a", "1");
    params.insert("a", "2");
    assert_eq!(build_canonicalized_query(&params), "a=2");
}
