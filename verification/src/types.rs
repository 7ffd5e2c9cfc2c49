//! Typed request parameters for the supported operations, and the
//! identifier newtypes they use. Each parameter struct serializes itself
//! into the signed parameter map.

use vstd::prelude::*;
use vstd::string::{StringExecFns, StringSliceAdditionalSpecFns};
use vstd::utf8::encode_utf8;
use crate::json::{ser_value, Json, JsonV};
use crate::params::ParamMap;
use crate::redact::lossy_string_of_bytes;
use crate::text::{ascii_string, dec_digits, format_u64, lemma_dec_digits_ascii};

verus! {

/// A region identifier.
#[derive(Clone, Debug)]
pub struct RegionId {
    value: String,
}

impl View for RegionId {
    type V = Seq<char>;

    closed spec fn view(&self) -> Seq<char> {
        self.value@
    }
}

impl RegionId {
    /// Wraps a region identifier.
    pub fn new(value: String) -> (r: RegionId)
        ensures
            r@ == value@,
    {
        RegionId { value }
    }

    /// The identifier text.
    pub fn as_str(&self) -> (r: &str)
        ensures
            r@ == self@,
    {
        self.value.as_str()
    }
}

/// A zone identifier.
#[derive(Clone, Debug)]
pub struct ZoneId {
    value: String,
}

impl View for ZoneId {
    type V = Seq<char>;

    closed spec fn view(&self) -> Seq<char> {
        self.value@
    }
}

impl ZoneId {
    /// Wraps a zone identifier.
    pub fn new(value: String) -> (r: ZoneId)
        ensures
            r@ == value@,
    {
        ZoneId { value }
    }

    /// The identifier text.
    pub fn as_str(&self) -> (r: &str)
        ensures
            r@ == self@,
    {
        self.value.as_str()
    }
}

/// An instance identifier.
#[derive(Clone, Debug)]
pub struct InstanceId {
    value: String,
}

impl View for InstanceId {
    type V = Seq<char>;

    closed spec fn view(&self) -> Seq<char> {
        self.value@
    }
}

impl InstanceId {
    /// Wraps an instance identifier.
    pub fn new(value: String) -> (r: InstanceId)
        ensures
            r@ == value@,
    {
        InstanceId { value }
    }

    /// The identifier text.
    pub fn as_str(&self) -> (r: &str)
        ensures
            r@ == self@,
    {
        self.value.as_str()
    }
}

/// The rendering of a boolean parameter value.
pub open spec fn bool_chars(b: bool) -> Seq<char> {
    if b {
        "true"@
    } else {
        "false"@
    }
}

fn bool_str(b: bool) -> (r: &'static str)
    ensures
        r@ == bool_chars(b),
{
    if b {
        "true"
    } else {
        "false"
    }
}

/// The decimal rendering of a numeric parameter value.
pub open spec fn u32_chars(n: u32) -> Seq<char> {
    crate::text::ascii_chars(dec_digits(n as nat))
}

fn u32_string(n: u32) -> (r: String)
    ensures
        r@ == u32_chars(n),
{
    let digits = format_u64(n as u64);
    proof {
        lemma_dec_digits_ascii(n as nat);
    }
    ascii_string(digits)
}

/// The JSON array of instance id strings sent as one parameter value.
pub open spec fn instance_ids_chars(ids: Seq<InstanceId>) -> Seq<char> {
    crate::redact::lossy_chars(
        ser_value(JsonV::Arr(ids.map_values(|id: InstanceId| JsonV::Str(encode_utf8(id@))))),
    )
}

fn instance_ids_json(instance_ids: &Vec<InstanceId>) -> (r: String)
    ensures
        r@ == instance_ids_chars(instance_ids@),
{
    let n = instance_ids.len();
    let mut items: Vec<Json> = Vec::new();
    let ghost target = instance_ids@.map_values(|id: InstanceId| JsonV::Str(encode_utf8(id@)));
    let mut i: usize = 0;
    proof {
        crate::json::lemma_view_items(items@);
        assert(crate::json::view_items(items@) =~= target.take(0));
    }
    while i < n
        invariant
            0 <= i <= n,
            n == instance_ids@.len(),
            target == instance_ids@.map_values(|id: InstanceId| JsonV::Str(encode_utf8(id@))),
            crate::json::view_items(items@) == target.take(i as int),
        decreases n - i,
    {
        let id_bytes = instance_ids[i].as_str().as_bytes_vec();
        let ghost before = items@;
        items.push(Json::Str(id_bytes));
        proof {
            assert(items@.drop_last() =~= before);
            crate::json::lemma_view_items(items@);
            crate::json::lemma_view_items(before);
            assert(crate::json::view_items(items@) =~= crate::json::view_items(before).push(
                JsonV::Str(encode_utf8(instance_ids@[i as int]@))));
            assert(target.take(i + 1) =~= target.take(i as int).push(target[i as int]));
        }
        i = i + 1;
    }
    proof {
        assert(target.take(n as int) =~= target);
    }
    let arr = Json::Arr(items);
    proof {
        assert(arr@ == JsonV::Arr(crate::json::view_items(arr->Arr_0@)));
    }
    let bytes = crate::json::to_json_bytes(&arr);
    lossy_string_of_bytes(&bytes)
}

/// Parameters for listing regions.
#[derive(Clone, Debug)]
pub struct DescribeRegionsParams {
    pub region_id: Option<RegionId>,
}

impl Default for DescribeRegionsParams {
    /// No region filter.
    fn default() -> (r: DescribeRegionsParams)
        ensures
            r.region_id is None,
    {
        DescribeRegionsParams { region_id: None }
    }
}

impl DescribeRegionsParams {
    /// The query parameters this request contributes.
    pub fn into_query(self) -> (r: ParamMap)
        ensures
            r.wf(),
            r@ == match self.region_id {
                Some(rid) => Map::<Seq<u8>, Seq<u8>>::empty().insert(
                    "RegionId".spec_bytes(),
                    encode_utf8(rid@),
                ),
                None => Map::<Seq<u8>, Seq<u8>>::empty(),
            },
    {
        let mut map = ParamMap::new();
        match &self.region_id {
            Some(rid) => {
                map.insert("RegionId", rid.as_str());
            },
            None => {},
        }
        map
    }
}

/// Parameters for listing the zones of a region.
#[derive(Clone, Debug)]
pub struct DescribeZonesParams {
    pub region_id: RegionId,
}

impl DescribeZonesParams {
    /// The query parameters this request contributes.
    pub fn into_query(self) -> (r: ParamMap)
        ensures
            r.wf(),
            r@ == Map::<Seq<u8>, Seq<u8>>::empty().insert(
                "RegionId".spec_bytes(),
                encode_utf8(self.region_id@),
            ),
    {
        let mut map = ParamMap::new();
        map.insert("RegionId", self.region_id.as_str());
        map
    }
}

/// Parameters for querying available resources in a zone.
#[derive(Clone, Debug)]
pub struct DescribeAvailableResourceParams {
    pub region_id: RegionId,
    pub zone_id: ZoneId,
}

impl DescribeAvailableResourceParams {
    /// The query parameters this request contributes.
    pub fn into_query(self) -> (r: ParamMap)
        ensures
            r.wf(),
            r@ == Map::<Seq<u8>, Seq<u8>>::empty().insert(
                "RegionId".spec_bytes(),
                encode_utf8(self.region_id@),
            ).insert("ZoneId".spec_bytes(), encode_utf8(self.zone_id@)),
    {
        let mut map = ParamMap::new();
        map.insert("RegionId", self.region_id.as_str());
        map.insert("ZoneId", self.zone_id.as_str());
        map
    }
}

/// Parameters for reading account attributes.
#[derive(Clone, Debug)]
pub struct DescribeAccountAttributesParams {}

impl Default for DescribeAccountAttributesParams {
    /// No parameters.
    fn default() -> (r: DescribeAccountAttributesParams) {
        DescribeAccountAttributesParams {  }
    }
}

impl DescribeAccountAttributesParams {
    /// The query parameters this request contributes: none.
    pub fn into_query(self) -> (r: ParamMap)
        ensures
            r.wf(),
            r@ == Map::<Seq<u8>, Seq<u8>>::empty(),
    {
        ParamMap::new()
    }
}

/// Parameters for querying resource modification options.
#[derive(Clone, Debug)]
pub struct DescribeResourcesModificationParams {
    pub region_id: RegionId,
    pub zone_id: ZoneId,
}

impl DescribeResourcesModificationParams {
    /// The query parameters this request contributes.
    pub fn into_query(self) -> (r: ParamMap)
        ensures
            r.wf(),
            r@ == Map::<Seq<u8>, Seq<u8>>::empty().insert(
                "RegionId".spec_bytes(),
                encode_utf8(self.region_id@),
            ).insert("ZoneId".spec_bytes(), encode_utf8(self.zone_id@)),
    {
        let mut map = ParamMap::new();
        map.insert("RegionId", self.region_id.as_str());
        map.insert("ZoneId", self.zone_id.as_str());
        map
    }
}

/// Parameters for querying recommended instance types.
#[derive(Clone, Debug)]
pub struct DescribeRecommendInstanceTypeParams {
    pub region_id: RegionId,
}

impl DescribeRecommendInstanceTypeParams {
    /// The query parameters this request contributes.
    pub fn into_query(self) -> (r: ParamMap)
        ensures
            r.wf(),
            r@ == Map::<Seq<u8>, Seq<u8>>::empty().insert(
                "RegionId".spec_bytes(),
                encode_utf8(self.region_id@),
            ),
    {
        let mut map = ParamMap::new();
        map.insert("RegionId", self.region_id.as_str());
        map
    }
}

/// Parameters for launching instances.
#[derive(Clone, Debug)]
pub struct RunInstancesParams {
    pub region_id: RegionId,
    pub image_id: String,
    pub instance_type: String,
}

impl RunInstancesParams {
    /// The query parameters this request contributes.
    pub fn into_query(self) -> (r: ParamMap)
        ensures
            r.wf(),
            r@ == Map::<Seq<u8>, Seq<u8>>::empty().insert(
                "RegionId".spec_bytes(),
                encode_utf8(self.region_id@),
            ).insert("ImageId".spec_bytes(), encode_utf8(self.image_id@)).insert(
                "InstanceType".spec_bytes(),
                encode_utf8(self.instance_type@),
            ),
    {
        let mut map = ParamMap::new();
        map.insert("RegionId", self.region_id.as_str());
        map.insert("ImageId", self.image_id.as_str());
        map.insert("InstanceType", self.instance_type.as_str());
        map
    }
}

/// Parameters for starting instances.
#[derive(Clone, Debug)]
pub struct StartInstancesParams {
    pub instance_ids: Vec<InstanceId>,
}

impl StartInstancesParams {
    /// The query parameters this request contributes.
    pub fn into_query(self) -> (r: ParamMap)
        ensures
            r.wf(),
            r@ == Map::<Seq<u8>, Seq<u8>>::empty().insert(
                "InstanceIds".spec_bytes(),
                encode_utf8(instance_ids_chars(self.instance_ids@)),
            ),
    {
        let mut map = ParamMap::new();
        let ids = instance_ids_json(&self.instance_ids);
        map.insert("InstanceIds", ids.as_str());
        map
    }
}

/// Parameters for stopping instances.
#[derive(Clone, Debug)]
pub struct StopInstancesParams {
    pub instance_ids: Vec<InstanceId>,
    pub force_stop: Option<bool>,
    pub dry_run: Option<bool>,
}

impl StopInstancesParams {
    /// The query parameters this request contributes.
    pub fn into_query(self) -> (r: ParamMap)
        ensures
            r.wf(),
            r@ == ({
                let m = Map::<Seq<u8>, Seq<u8>>::empty().insert(
                    "InstanceIds".spec_bytes(),
                    encode_utf8(instance_ids_chars(self.instance_ids@)),
                );
                let m2 = match self.force_stop {
                    Some(f) => m.insert("ForceStop".spec_bytes(), encode_utf8(bool_chars(f))),
                    None => m,
                };
                match self.dry_run {
                    Some(d) => m2.insert("DryRun".spec_bytes(), encode_utf8(bool_chars(d))),
                    None => m2,
                }
            }),
    {
        let mut map = ParamMap::new();
        let ids = instance_ids_json(&self.instance_ids);
        map.insert("InstanceIds", ids.as_str());
        match self.force_stop {
            Some(f) => {
                map.insert("ForceStop", bool_str(f));
            },
            None => {},
        }
        match self.dry_run {
            Some(d) => {
                map.insert("DryRun", bool_str(d));
            },
            None => {},
        }
        map
    }
}

/// Parameters for rebooting one instance.
#[derive(Clone, Debug)]
pub struct RebootInstanceParams {
    pub instance_id: InstanceId,
    pub force_stop: Option<bool>,
    pub dry_run: Option<bool>,
}

impl RebootInstanceParams {
    /// The query parameters this request contributes.
    pub fn into_query(self) -> (r: ParamMap)
        ensures
            r.wf(),
            r@ == ({
                let m = Map::<Seq<u8>, Seq<u8>>::empty().insert(
                    "InstanceId".spec_bytes(),
                    encode_utf8(self.instance_id@),
                );
                let m2 = match self.force_stop {
                    Some(f) => m.insert("ForceStop".spec_bytes(), encode_utf8(bool_chars(f))),
                    None => m,
                };
                match self.dry_run {
                    Some(d) => m2.insert("DryRun".spec_bytes(), encode_utf8(bool_chars(d))),
                    None => m2,
                }
            }),
    {
        let mut map = ParamMap::new();
        map.insert("InstanceId", self.instance_id.as_str());
        match self.force_stop {
            Some(f) => {
                map.insert("ForceStop", bool_str(f));
            },
            None => {},
        }
        match self.dry_run {
            Some(d) => {
                map.insert("DryRun", bool_str(d));
            },
            None => {},
        }
        map
    }
}

/// Parameters for deleting one instance.
#[derive(Clone, Debug)]
pub struct DeleteInstanceParams {
    pub instance_id: InstanceId,
}

impl DeleteInstanceParams {
    /// The query parameters this request contributes.
    pub fn into_query(self) -> (r: ParamMap)
        ensures
            r.wf(),
            r@ == Map::<Seq<u8>, Seq<u8>>::empty().insert(
                "InstanceId".spec_bytes(),
                encode_utf8(self.instance_id@),
            ),
    {
        let mut map = ParamMap::new();
        map.insert("InstanceId", self.instance_id.as_str());
        map
    }
}

/// Parameters for listing instance statuses.
#[derive(Clone, Debug)]
pub struct DescribeInstanceStatusParams {
    pub region_id: RegionId,
    pub instance_id: Option<InstanceId>,
    pub page_number: Option<u32>,
    pub page_size: Option<u32>,
}

impl DescribeInstanceStatusParams {
    /// The query parameters this request contributes.
    pub fn into_query(self) -> (r: ParamMap)
        ensures
            r.wf(),
            r@ == ({
                let m = Map::<Seq<u8>, Seq<u8>>::empty().insert(
                    "RegionId".spec_bytes(),
                    encode_utf8(self.region_id@),
                );
                let m2 = match self.instance_id {
                    Some(id) => m.insert("InstanceId".spec_bytes(), encode_utf8(id@)),
                    None => m,
                };
                let m3 = match self.page_number {
                    Some(n) => m2.insert("PageNumber".spec_bytes(), encode_utf8(u32_chars(n))),
                    None => m2,
                };
                match self.page_size {
                    Some(n) => m3.insert("PageSize".spec_bytes(), encode_utf8(u32_chars(n))),
                    None => m3,
                }
            }),
    {
        let mut map = ParamMap::new();
        map.insert("RegionId", self.region_id.as_str());
        match &self.instance_id {
            Some(id) => {
                map.insert("InstanceId", id.as_str());
            },
            None => {},
        }
        match self.page_number {
            Some(n) => {
                let v = u32_string(n);
                map.insert("PageNumber", v.as_str());
            },
            None => {},
        }
        match self.page_size {
            Some(n) => {
                let v = u32_string(n);
                map.insert("PageSize", v.as_str());
            },
            None => {},
        }
        map
    }
}

/// Parameters for listing instances.
#[derive(Clone, Debug)]
pub struct DescribeInstancesParams {
    pub region_id: RegionId,
    /// JSON text for the `Filters` parameter.
    pub filters: Option<String>,
    pub page_number: Option<u32>,
    pub page_size: Option<u32>,
}

impl DescribeInstancesParams {
    /// The query parameters this request contributes.
    pub fn into_query(self) -> (r: ParamMap)
        ensures
            r.wf(),
            r@ == ({
                let m = Map::<Seq<u8>, Seq<u8>>::empty().insert(
                    "RegionId".spec_bytes(),
                    encode_utf8(self.region_id@),
                );
                let m2 = match self.filters {
                    Some(f) => m.insert("Filters".spec_bytes(), encode_utf8(f@)),
                    None => m,
                };
                let m3 = match self.page_number {
                    Some(n) => m2.insert("PageNumber".spec_bytes(), encode_utf8(u32_chars(n))),
                    None => m2,
                };
                match self.page_size {
                    Some(n) => m3.insert("PageSize".spec_bytes(), encode_utf8(u32_chars(n))),
                    None => m3,
                }
            }),
    {
        let mut map = ParamMap::new();
        map.insert("RegionId", self.region_id.as_str());
        match &self.filters {
            Some(f) => {
                map.insert("Filters", f.as_str());
            },
            None => {},
        }
        match self.page_number {
            Some(n) => {
                let v = u32_string(n);
                map.insert("PageNumber", v.as_str());
            },
            None => {},
        }
        match self.page_size {
            Some(n) => {
                let v = u32_string(n);
                map.insert("PageSize", v.as_str());
            },
            None => {},
        }
        map
    }
}

/// Parameters for querying the account balance.
#[derive(Clone, Debug)]
pub struct QueryAccountBalanceParams {}

impl Default for QueryAccountBalanceParams {
    /// No parameters.
    fn default() -> (r: QueryAccountBalanceParams) {
        QueryAccountBalanceParams {  }
    }
}

impl QueryAccountBalanceParams {
    /// The query parameters this request contributes: none.
    pub fn into_query(self) -> (r: ParamMap)
        ensures
            r.wf(),
            r@ == Map::<Seq<u8>, Seq<u8>>::empty(),
    {
        ParamMap::new()
    }
}

/// The kind of principal a caller identity describes.
#[derive(Clone, Copy, Debug, PartialEq, Eq, Structural)]
pub enum IdentityType {
    Account,
    RamUser,
    AssumedRoleUser,
}

/// The identity returned by the caller-identity operation.
#[derive(Clone, Debug)]
pub struct CallerIdentity {
    pub identity_type: IdentityType,
    pub request_id: String,
    pub account_id: String,
    pub principal_id: String,
    pub user_id: String,
    pub arn: String,
    pub role_id: Option<String>,
}

/// The same identity record, as decoded by the lower-level client surface.
#[derive(Clone, Debug)]
pub struct CallerIdentityBody {
    pub identity_type: IdentityType,
    pub request_id: String,
    pub account_id: String,
    pub principal_id: String,
    pub user_id: String,
    pub arn: String,
    pub role_id: Option<String>,
}

/// The identity kind a field value denotes.
pub open spec fn spec_identity_type(s: Seq<u8>) -> Option<IdentityType> {
    if s == "Account".spec_bytes() {
        Some(IdentityType::Account)
    } else if s == "RAMUser".spec_bytes() {
        Some(IdentityType::RamUser)
    } else if s == "AssumedRoleUser".spec_bytes() {
        Some(IdentityType::AssumedRoleUser)
    } else {
        None
    }
}

/// The named field holds a valid-UTF-8 string.
pub open spec fn string_field_ok(fields: Seq<(Seq<u8>, JsonV)>, name: Seq<u8>) -> bool {
    match crate::json::find_field(fields, name) {
        Some(JsonV::Str(b)) => vstd::utf8::valid_utf8(b),
        _ => false,
    }
}

/// The named field holds the given decoded string.
pub open spec fn string_field_is(fields: Seq<(Seq<u8>, JsonV)>, name: Seq<u8>, x: Seq<char>) -> bool {
    match crate::json::find_field(fields, name) {
        Some(JsonV::Str(b)) => vstd::utf8::valid_utf8(b) && x == vstd::utf8::decode_utf8(b),
        _ => false,
    }
}

/// A body has the caller-identity shape: the identity type names a known
/// kind, the five string fields are present, and the role id is a string,
/// null, or absent.
pub open spec fn caller_identity_shape(body: Seq<u8>) -> bool {
    match crate::json::json_tree_of(body) {
        Some(JsonV::Obj(fields)) => {
            &&& match crate::json::find_field(fields, "IdentityType".spec_bytes()) {
                Some(JsonV::Str(s)) => spec_identity_type(s) is Some,
                _ => false,
            }
            &&& string_field_ok(fields, "RequestId".spec_bytes())
            &&& string_field_ok(fields, "AccountId".spec_bytes())
            &&& string_field_ok(fields, "PrincipalId".spec_bytes())
            &&& string_field_ok(fields, "UserId".spec_bytes())
            &&& string_field_ok(fields, "Arn".spec_bytes())
            &&& match crate::json::find_field(fields, "RoleId".spec_bytes()) {
                Some(JsonV::Str(b)) => vstd::utf8::valid_utf8(b),
                Some(JsonV::Null) => true,
                None => true,
                _ => false,
            }
        },
        _ => false,
    }
}

/// The decoded identity matches the body field for field.
pub open spec fn decoded_caller_identity(body: Seq<u8>, c: CallerIdentity) -> bool {
    &&& caller_identity_shape(body)
    &&& match crate::json::json_tree_of(body) {
        Some(JsonV::Obj(fields)) => {
            &&& match crate::json::find_field(fields, "IdentityType".spec_bytes()) {
                Some(JsonV::Str(s)) => spec_identity_type(s) == Some(c.identity_type),
                _ => false,
            }
            &&& string_field_is(fields, "RequestId".spec_bytes(), c.request_id@)
            &&& string_field_is(fields, "AccountId".spec_bytes(), c.account_id@)
            &&& string_field_is(fields, "PrincipalId".spec_bytes(), c.principal_id@)
            &&& string_field_is(fields, "UserId".spec_bytes(), c.user_id@)
            &&& string_field_is(fields, "Arn".spec_bytes(), c.arn@)
            &&& match crate::json::find_field(fields, "RoleId".spec_bytes()) {
                Some(JsonV::Str(b)) => c.role_id matches Some(r) && vstd::utf8::valid_utf8(b)
                    && r@ == vstd::utf8::decode_utf8(b),
                _ => c.role_id is None,
            }
        },
        _ => false,
    }
}

fn read_string_field(fields: &Vec<(Vec<u8>, Json)>, name: &str) -> (r: Option<String>)
    ensures
        ({
            let fv = Seq::new(fields@.len(), |i: int| (fields@[i].0@, fields@[i].1@));
            match r {
                Some(s) => string_field_is(fv, name.spec_bytes(), s@),
                None => !string_field_ok(fv, name.spec_bytes()),
            }
        }),
{
    match crate::json::get_field(fields, name) {
        Some(j) => match j {
            Json::Str(b) => crate::text::try_string_from_utf8(b),
            _ => {
                proof {
                    assert(!(j@ is Str));
                }
                None
            },
        },
        None => None,
    }
}

/// Decodes a caller-identity body. Succeeds exactly on bodies of the
/// caller-identity shape, and then every field matches the body.
pub fn parse_caller_identity(body: &Vec<u8>) -> (r: Option<CallerIdentity>)
    ensures
        match r {
            Some(c) => decoded_caller_identity(body@, c),
            None => !caller_identity_shape(body@),
        },
{
    let parsed = match crate::json::parse_json(body) {
        Some(v) => v,
        None => {
            return None;
        },
    };
    let fields = match &parsed {
        Json::Obj(fields) => fields,
        _ => {
            proof {
                assert(!(parsed@ is Obj));
            }
            return None;
        },
    };
    proof {
        assert(parsed@ is Obj);
        crate::json::lemma_view_fields(fields@);
        assert(parsed@->Obj_0 =~= Seq::new(
            fields@.len(),
            |i: int| (fields@[i].0@, fields@[i].1@),
        ));
    }
    let identity_type = match crate::json::get_field(fields, "IdentityType") {
        Some(j) => match j {
            Json::Str(s) => {
                if crate::text::bytes_equal(s, &"Account".as_bytes_vec()) {
                    IdentityType::Account
                } else if crate::text::bytes_equal(s, &"RAMUser".as_bytes_vec()) {
                    IdentityType::RamUser
                } else if crate::text::bytes_equal(s, &"AssumedRoleUser".as_bytes_vec()) {
                    IdentityType::AssumedRoleUser
                } else {
                    return None;
                }
            },
            _ => {
                proof {
                    assert(!(j@ is Str));
                }
                return None;
            },
        },
        None => {
            return None;
        },
    };
    let request_id = match read_string_field(fields, "RequestId") {
        Some(s) => s,
        None => {
            return None;
        },
    };
    let account_id = match read_string_field(fields, "AccountId") {
        Some(s) => s,
        None => {
            return None;
        },
    };
    let principal_id = match read_string_field(fields, "PrincipalId") {
        Some(s) => s,
        None => {
            return None;
        },
    };
    let user_id = match read_string_field(fields, "UserId") {
        Some(s) => s,
        None => {
            return None;
        },
    };
    let arn = match read_string_field(fields, "Arn") {
        Some(s) => s,
        None => {
            return None;
        },
    };
    let role_id = match crate::json::get_field(fields, "RoleId") {
        Some(j) => match j {
            Json::Str(b) => match crate::text::try_string_from_utf8(b) {
                Some(s) => Some(s),
                None => {
                    return None;
                },
            },
            Json::Null => None,
            _ => {
                proof {
                    assert(!(j@ is Str) && !(j@ is Null));
                }
                return None;
            },
        },
        None => None,
    };
    Some(
        CallerIdentity {
            identity_type,
            request_id,
            account_id,
            principal_id,
            user_id,
            arn,
            role_id,
        },
    )
}

/// The first field, in a fixed check order, at which a body fails the
/// caller-identity shape; `.` when the body is not a JSON object, and
/// nothing when the shape holds.
pub open spec fn identity_mismatch_spec(body: Seq<u8>) -> Option<Seq<char>> {
    match crate::json::json_tree_of(body) {
        Some(JsonV::Obj(fields)) => {
            if !(match crate::json::find_field(fields, "IdentityType".spec_bytes()) {
                Some(JsonV::Str(s)) => spec_identity_type(s) is Some,
                _ => false,
            }) {
                Some("IdentityType"@)
            } else if !string_field_ok(fields, "RequestId".spec_bytes()) {
                Some("RequestId"@)
            } else if !string_field_ok(fields, "AccountId".spec_bytes()) {
                Some("AccountId"@)
            } else if !string_field_ok(fields, "PrincipalId".spec_bytes()) {
                Some("PrincipalId"@)
            } else if !string_field_ok(fields, "UserId".spec_bytes()) {
                Some("UserId"@)
            } else if !string_field_ok(fields, "Arn".spec_bytes()) {
                Some("Arn"@)
            } else if !(match crate::json::find_field(fields, "RoleId".spec_bytes()) {
                Some(JsonV::Str(b)) => vstd::utf8::valid_utf8(b),
                Some(JsonV::Null) => true,
                None => true,
                _ => false,
            }) {
                Some("RoleId"@)
            } else {
                None
            }
        },
        _ => Some("."@),
    }
}

fn string_field_ok_exec(fields: &Vec<(Vec<u8>, Json)>, name: &str) -> (r: bool)
    ensures
        ({
            let fv = Seq::new(fields@.len(), |i: int| (fields@[i].0@, fields@[i].1@));
            r == string_field_ok(fv, name.spec_bytes())
        }),
{
    match read_string_field(fields, name) {
        Some(_) => true,
        None => false,
    }
}

/// Names the field at which a body fails the caller-identity shape, in
/// the order the fields are checked; `.` for a body that is not a JSON
/// object. For a well-shaped body there is none.
pub fn caller_identity_mismatch(body: &Vec<u8>) -> (r: Option<String>)
    ensures
        match r {
            Some(s) => identity_mismatch_spec(body@) == Some(s@),
            None => identity_mismatch_spec(body@) is None,
        },
        (r is None) == caller_identity_shape(body@),
{
    let parsed = match crate::json::parse_json(body) {
        Some(v) => v,
        None => {
            return Some(".".to_owned());
        },
    };
    let fields = match &parsed {
        Json::Obj(fields) => fields,
        _ => {
            proof {
                assert(!(parsed@ is Obj));
            }
            return Some(".".to_owned());
        },
    };
    proof {
        assert(parsed@ is Obj);
        crate::json::lemma_view_fields(fields@);
        assert(parsed@->Obj_0 =~= Seq::new(
            fields@.len(),
            |i: int| (fields@[i].0@, fields@[i].1@),
        ));
    }
    let identity_ok = match crate::json::get_field(fields, "IdentityType") {
        Some(j) => match j {
            Json::Str(s) => crate::text::bytes_equal(s, &"Account".as_bytes_vec())
                || crate::text::bytes_equal(s, &"RAMUser".as_bytes_vec())
                || crate::text::bytes_equal(s, &"AssumedRoleUser".as_bytes_vec()),
            _ => {
                proof {
                    assert(!(j@ is Str));
                }
                false
            },
        },
        None => false,
    };
    if !identity_ok {
        return Some("IdentityType".to_owned());
    }
    if !string_field_ok_exec(fields, "RequestId") {
        return Some("RequestId".to_owned());
    }
    if !string_field_ok_exec(fields, "AccountId") {
        return Some("AccountId".to_owned());
    }
    if !string_field_ok_exec(fields, "PrincipalId") {
        return Some("PrincipalId".to_owned());
    }
    if !string_field_ok_exec(fields, "UserId") {
        return Some("UserId".to_owned());
    }
    if !string_field_ok_exec(fields, "Arn") {
        return Some("Arn".to_owned());
    }
    let role_ok = match crate::json::get_field(fields, "RoleId") {
        Some(j) => match j {
            Json::Str(b) => match crate::text::try_string_from_utf8(b) {
                Some(_) => true,
                None => false,
            },
            Json::Null => true,
            _ => {
                proof {
                    assert(!(j@ is Str) && !(j@ is Null));
                }
                false
            },
        },
        None => true,
    };
    if !role_ok {
        return Some("RoleId".to_owned());
    }
    None
}

} // verus!
