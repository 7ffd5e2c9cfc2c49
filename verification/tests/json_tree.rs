use alibabacloud::json::{to_json_bytes, Json};
use alibabacloud::params::build_canonicalized_query;
use alibabacloud::redact::body_snippet;
use alibabacloud::types::{
    parse_caller_identity, CallerIdentity, IdentityType, InstanceId, RegionId, StopInstancesParams,
};

#[test]
fn snippets_reserialize_json_canonically() {
    // A harmless JSON body comes back re-serialized: sorted keys, no
    // whitespace, untouched values.
    let body = br#" { "b" : [ 1 , true , null ] , "a" : "x" } "#.to_vec();
    let snippet = body_snippet(&body, 4096).unwrap();
    assert_eq!(snippet, r#"{"a":"x","b":[1,true,null]}"#);
}

#[test]
fn string_escapes_survive_reserialization() {
    let body = br#"{"k":"a\"b\\c\nd"}"#.to_vec();
    let snippet = body_snippet(&body, 4096).unwrap();
    assert_eq!(snippet, r#"{"k":"a\"b\\c\nd"}"#);
}

#[test]
fn serializer_writes_each_shape() {
    assert_eq!(to_json_bytes(&Json::Null), b"null".to_vec());
    assert_eq!(to_json_bytes(&Json::Bool(true)), b"true".to_vec());
    assert_eq!(to_json_bytes(&Json::Bool(false)), b"false".to_vec());
    assert_eq!(to_json_bytes(&Json::Num(b"12".to_vec())), b"12".to_vec());
    assert_eq!(to_json_bytes(&Json::Str(b"x".to_vec())), br#""x""#.to_vec());
    let arr = Json::Arr(vec![Json::Num(b"1".to_vec()), Json::Null]);
    assert_eq!(to_json_bytes(&arr), b"[1,null]".to_vec());
    let obj = Json::Obj(vec![(b"k".to_vec(), Json::Bool(false))]);
    assert_eq!(to_json_bytes(&obj), br#"{"k":false}"#.to_vec());
}

#[test]
fn caller_identity_fields_are_decoded() {
    let body = br#"{"IdentityType":"Account","RequestId":"req","AccountId":"1","PrincipalId":"p","UserId":"u","Arn":"arn","RoleId":null}"#
        .to_vec();
    let c: CallerIdentity = parse_caller_identity(&body).unwrap();
    assert_eq!(c.identity_type, IdentityType::Account);
    assert_eq!(c.request_id, "req");
    assert_eq!(c.account_id, "1");
    assert_eq!(c.principal_id, "p");
    assert_eq!(c.user_id, "u");
    assert_eq!(c.arn, "arn");
    assert!(c.role_id.is_none());
}

#[test]
fn caller_identity_with_role_and_ram_user() {
    let body = br#"{"IdentityType":"RAMUser","RequestId":"r","AccountId":"a","PrincipalId":"p","UserId":"u","Arn":"arn","RoleId":"role"}"#
        .to_vec();
    let c = parse_caller_identity(&body).unwrap();
    assert_eq!(c.identity_type, IdentityType::RamUser);
    assert_eq!(c.role_id.as_deref(), Some("role"));
}

#[test]
fn malformed_caller_identity_is_rejected() {
    let missing = br#"{"IdentityType":"Account"}"#.to_vec();
    assert!(parse_caller_identity(&missing).is_none());

    let unknown_kind = br#"{"IdentityType":"Robot","RequestId":"r","AccountId":"a","PrincipalId":"p","UserId":"u","Arn":"arn"}"#
        .to_vec();
    assert!(parse_caller_identity(&unknown_kind).is_none());

    let not_json = b"temporary".to_vec();
    assert!(parse_caller_identity(&not_json).is_none());
}

#[test]
fn instance_ids_serialize_as_a_json_array_parameter() {
    let params = StopInstancesParams {
        instance_ids: vec![
            InstanceId::new("i-1".to_owned()),
            InstanceId::new("i-2".to_owned()),
        ],
        force_stop: Some(true),
        dry_run: None,
    };
    let query = build_canonicalized_query(&params.into_query());
    assert_eq!(
        query,
        "ForceStop=true&InstanceIds=%5B%22i-1%22%2C%22i-2%22%5D"
    );
}

#[test]
fn region_ids_expose_their_text() {
    let r = RegionId::new("cn-hangzhou".to_owned());
    assert_eq!(r.as_str(), "cn-hangzhou");
}
