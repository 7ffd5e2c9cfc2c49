//! The response envelope: a JSON body is either the caller's expected
//! payload or the vendor's error record `{Code, Message, RequestId?}`.
//! Decoding the record, resolving the request id from response headers,
//! and classifying errors from status and record are all verified.

use vstd::prelude::*;
use vstd::string::{StrSliceExecFns, StringExecFns, StringSliceAdditionalSpecFns};
use vstd::utf8::{decode_utf8, encode_utf8, valid_utf8};
use crate::error::{Error, ErrorInfo};
use crate::json::{find_field, json_tree_of, parse_json, Json, JsonV};
use crate::redact::snippet_spec;
use crate::retry::parse_retry_after;
use crate::text::{
    ascii_chars, ascii_string, dec_digits, format_u64, lemma_dec_digits_ascii, str_eq, trim_bytes,
    trim_spec, try_string_from_utf8,
};
use crate::transport::{find_header, headers_view, lower_bytes, Response};

verus! {

/// The vendor error record carried by a response body.
pub struct VendorError {
    pub code: String,
    pub message: String,
    pub request_id: Option<String>,
}

/// The vendor error record a document tree holds: an object whose `Code`
/// and `Message` fields are strings, with an optional `RequestId` string.
pub open spec fn tree_vendor_error(v: JsonV) -> Option<(Seq<u8>, Seq<u8>, Option<Seq<u8>>)> {
    match v {
        JsonV::Obj(fields) => match (
            find_field(fields, "Code".spec_bytes()),
            find_field(fields, "Message".spec_bytes()),
        ) {
            (Some(JsonV::Str(c)), Some(JsonV::Str(m))) => Some(
                (
                    c,
                    m,
                    match find_field(fields, "RequestId".spec_bytes()) {
                        Some(JsonV::Str(r)) => Some(r),
                        _ => None,
                    },
                ),
            ),
            _ => None,
        },
        _ => None,
    }
}

/// The vendor error record a body holds, if it parses as one.
pub open spec fn vendor_error_of(body: Seq<u8>) -> Option<(Seq<u8>, Seq<u8>, Option<Seq<u8>>)> {
    match json_tree_of(body) {
        Some(v) => tree_vendor_error(v),
        None => None,
    }
}

/// The body holds a well-formed vendor error record whose fields all
/// decode as text.
pub open spec fn decodable_vendor_error(body: Seq<u8>) -> bool {
    match vendor_error_of(body) {
        Some(t) => valid_utf8(t.0) && valid_utf8(t.1) && (match t.2 {
            Some(rb) => valid_utf8(rb),
            None => true,
        }),
        None => false,
    }
}

/// The decoded record matches the body's, field for field.
pub open spec fn decoded_vendor_error(body: Seq<u8>, ve: VendorError) -> bool {
    match vendor_error_of(body) {
        Some(t) => {
            &&& valid_utf8(t.0) && ve.code@ == decode_utf8(t.0)
            &&& valid_utf8(t.1) && ve.message@ == decode_utf8(t.1)
            &&& match (t.2, ve.request_id) {
                (Some(rb), Some(rs)) => valid_utf8(rb) && rs@ == decode_utf8(rb),
                (None, None) => true,
                _ => false,
            }
        },
        None => false,
    }
}

/// Reads a body as the vendor error record, if it is one. `None` means the
/// body holds no such record (or its fields are not valid UTF-8, which a
/// parsed JSON document never produces).
pub fn decode_vendor_error(body: &Vec<u8>) -> (r: Option<VendorError>)
    ensures
        r is Some <==> decodable_vendor_error(body@),
        r matches Some(ve) ==> decoded_vendor_error(body@, ve),
{
    let parsed = match parse_json(body) {
        Some(v) => v,
        None => {
            return None;
        },
    };
    let fields = match &parsed {
        Json::Obj(fields) => fields,
        _ => {
            proof {
                assert(tree_vendor_error(parsed@) is None);
            }
            return None;
        },
    };
    proof {
        assert(parsed@ is Obj);
        crate::json::lemma_view_fields(fields@);
        assert(parsed@->Obj_0 =~= Seq::new(
            fields@.len(),
            |i: int| (fields@[i].0@, fields@[i].1@),
        ));
    }
    let code_bytes = match crate::json::get_field(fields, "Code") {
        Some(j) => match j {
            Json::Str(c) => c,
            _ => {
                proof {
                    assert(!(j@ is Str));
                }
                return None;
            },
        },
        None => {
            return None;
        },
    };
    let message_bytes = match crate::json::get_field(fields, "Message") {
        Some(j) => match j {
            Json::Str(m) => m,
            _ => {
                proof {
                    assert(!(j@ is Str));
                }
                return None;
            },
        },
        None => {
            return None;
        },
    };
    let request_id_bytes = match crate::json::get_field(fields, "RequestId") {
        Some(j) => match j {
            Json::Str(r) => Some(r),
            _ => {
                proof {
                    assert(!(j@ is Str));
                }
                None
            },
        },
        None => None,
    };
    let code = match try_string_from_utf8(code_bytes) {
        Some(s) => s,
        None => {
            return None;
        },
    };
    let message = match try_string_from_utf8(message_bytes) {
        Some(s) => s,
        None => {
            return None;
        },
    };
    let request_id = match request_id_bytes {
        Some(rb) => match try_string_from_utf8(rb) {
            Some(s) => Some(s),
            None => {
                return None;
            },
        },
        None => None,
    };
    Some(VendorError { code, message, request_id })
}

/// An API error code that denotes an authentication failure.
pub open spec fn spec_is_auth_code(code: Seq<char>) -> bool {
    ||| code == "InvalidAccessKeyId.NotFound"@
    ||| code == "InvalidAccessKeyId"@
    ||| code == "SignatureDoesNotMatch"@
    ||| code == "InvalidSecurityToken"@
    ||| code == "UnauthorizedOperation"@
}

/// Whether a vendor error code denotes an authentication failure.
pub fn is_auth_error_code(code: &str) -> (r: bool)
    ensures
        r == spec_is_auth_code(code@),
{
    str_eq(code, "InvalidAccessKeyId.NotFound") || str_eq(code, "InvalidAccessKeyId") || str_eq(
        code,
        "SignatureDoesNotMatch",
    ) || str_eq(code, "InvalidSecurityToken") || str_eq(code, "UnauthorizedOperation")
}

/// The trimmed value of the header, when it is present and nonempty.
pub open spec fn header_trimmed(
    headers: Seq<(Seq<char>, Seq<char>)>,
    name: Seq<u8>,
) -> Option<Seq<u8>> {
    match find_header(headers, name) {
        Some(v) => {
            let t = trim_spec(encode_utf8(v));
            if t.len() > 0 {
                Some(t)
            } else {
                None
            }
        },
        None => None,
    }
}

/// The request id a response's headers carry: the first present, nonempty
/// value among the known request-id header names, trimmed.
pub open spec fn request_id_of(headers: Seq<(Seq<char>, Seq<char>)>) -> Option<Seq<u8>> {
    match header_trimmed(headers, lower_bytes("x-acs-request-id".spec_bytes())) {
        Some(t) => Some(t),
        None => match header_trimmed(headers, lower_bytes("x-request-id".spec_bytes())) {
            Some(t) => Some(t),
            None => match header_trimmed(headers, lower_bytes("x-amzn-requestid".spec_bytes())) {
                Some(t) => Some(t),
                None => header_trimmed(headers, lower_bytes("x-amz-request-id".spec_bytes())),
            },
        },
    }
}

/// Resolves the request id from a response's headers: the first present,
/// nonempty value among `x-acs-request-id`, `x-request-id`,
/// `x-amzn-requestid` and `x-amz-request-id`, trimmed.
pub fn extract_request_id(headers: &Vec<(String, String)>) -> (r: Option<String>)
    ensures
        match r {
            Some(s) => match request_id_of(headers_view(headers@)) {
                Some(t) => valid_utf8(t) && s@ == decode_utf8(t),
                None => false,
            },
            None => match request_id_of(headers_view(headers@)) {
                Some(t) => !valid_utf8(t),
                None => true,
            },
        },
{
    match crate::transport::header_value(headers, "x-acs-request-id") {
        Some(v) => {
            let vb = v.as_str().as_bytes_vec();
            let t = trim_bytes(&vb);
            if t.len() > 0 {
                return try_string_from_utf8(&t);
            }
        },
        None => {},
    }
    match crate::transport::header_value(headers, "x-request-id") {
        Some(v) => {
            let vb = v.as_str().as_bytes_vec();
            let t = trim_bytes(&vb);
            if t.len() > 0 {
                return try_string_from_utf8(&t);
            }
        },
        None => {},
    }
    match crate::transport::header_value(headers, "x-amzn-requestid") {
        Some(v) => {
            let vb = v.as_str().as_bytes_vec();
            let t = trim_bytes(&vb);
            if t.len() > 0 {
                return try_string_from_utf8(&t);
            }
        },
        None => {},
    }
    match crate::transport::header_value(headers, "x-amz-request-id") {
        Some(v) => {
            let vb = v.as_str().as_bytes_vec();
            let t = trim_bytes(&vb);
            if t.len() > 0 {
                return try_string_from_utf8(&t);
            }
        },
        None => {},
    }
    None
}

/// The vendor message a body yields for diagnostics: `code: message`,
/// trimmed; nothing when both parts are empty after trimming, or when the
/// body holds no vendor record.
pub open spec fn vendor_message_spec(body: Seq<u8>) -> Option<Seq<char>> {
    match vendor_error_of(body) {
        Some(t) => {
            let ct = trim_spec(t.0);
            let mt = trim_spec(t.1);
            if ct.len() == 0 && mt.len() == 0 {
                None
            } else if valid_utf8(ct) && valid_utf8(mt) {
                Some(decode_utf8(ct) + ": "@ + decode_utf8(mt))
            } else {
                None
            }
        },
        None => None,
    }
}

fn vendor_message(body: &Vec<u8>) -> (r: Option<String>)
    ensures
        match r {
            Some(s) => vendor_message_spec(body@) == Some(s@),
            None => vendor_message_spec(body@) is None,
        },
{
    let parsed = match parse_json(body) {
        Some(v) => v,
        None => {
            return None;
        },
    };
    let fields = match &parsed {
        Json::Obj(fields) => fields,
        _ => {
            proof {
                assert(tree_vendor_error(parsed@) is None);
            }
            return None;
        },
    };
    proof {
        assert(parsed@ is Obj);
        crate::json::lemma_view_fields(fields@);
        assert(parsed@->Obj_0 =~= Seq::new(
            fields@.len(),
            |i: int| (fields@[i].0@, fields@[i].1@),
        ));
    }
    let code_bytes = match crate::json::get_field(fields, "Code") {
        Some(j) => match j {
            Json::Str(c) => c,
            _ => {
                proof {
                    assert(!(j@ is Str));
                }
                return None;
            },
        },
        None => {
            return None;
        },
    };
    let message_bytes = match crate::json::get_field(fields, "Message") {
        Some(j) => match j {
            Json::Str(m) => m,
            _ => {
                proof {
                    assert(!(j@ is Str));
                }
                return None;
            },
        },
        None => {
            return None;
        },
    };
    let ct = trim_bytes(code_bytes);
    let mt = trim_bytes(message_bytes);
    if ct.len() == 0 && mt.len() == 0 {
        return None;
    }
    let cs = match try_string_from_utf8(&ct) {
        Some(s) => s,
        None => {
            return None;
        },
    };
    let ms = match try_string_from_utf8(&mt) {
        Some(s) => s,
        None => {
            return None;
        },
    };
    Some(cs.concat(": ").concat(ms.as_str()))
}

/// The generic message for a non-2xx response without a usable vendor
/// record.
pub open spec fn generic_status_message(status: u16) -> Seq<char> {
    "http status "@ + ascii_chars(dec_digits(status as nat))
}

fn status_message(status: u16) -> (r: String)
    ensures
        r@ == generic_status_message(status),
{
    let digits = format_u64(status as u64);
    proof {
        lemma_dec_digits_ascii(status as nat);
    }
    let ds = ascii_string(digits);
    let prefix: String = "http status ".to_owned();
    prefix.concat(ds.as_str())
}

/// What the diagnostics of a status-classified error hold.
pub open spec fn classified_info(
    info: ErrorInfo,
    method: String,
    path: String,
    response: Response,
    request_id: Option<String>,
    capture: bool,
    max_len: int,
) -> bool {
    &&& info.status == Some(response.status)
    &&& info.method matches Some(m) && m@ == method@
    &&& info.path matches Some(p) && p@ == path@
    &&& info.request_id == request_id
    &&& info.message matches Some(m) && m@ == (match vendor_message_spec(response.body@) {
        Some(vm) => vm,
        None => generic_status_message(response.status),
    })
    &&& (!capture ==> info.body_snippet is None)
    &&& (capture ==> match info.body_snippet {
        Some(s) => snippet_spec(response.body@, max_len) == Some(s@),
        None => snippet_spec(response.body@, max_len) is None,
    })
}

/// Classifies a non-2xx response by its HTTP status: `401`/`403` to
/// authentication, `404` to not-found, `409`/`412` to conflict, `429` to
/// rate-limited with the server's advisory pacing delay, anything else to
/// a generic API error. The diagnostics carry the status, method, path,
/// request id, the vendor message (or a generic one) and the redacted
/// body snippet.
pub fn classify_http_error(
    method: String,
    path: String,
    response: &Response,
    request_id: Option<String>,
    capture_body_snippet: bool,
    max_body_snippet_len: usize,
) -> (e: Error)
    ensures
        e.spec_info() matches Some(info) && classified_info(
            info,
            method,
            path,
            *response,
            request_id,
            capture_body_snippet,
            max_body_snippet_len as int,
        ),
        response.status == 401 || response.status == 403 ==> e is Auth,
        response.status == 404 ==> e is NotFound,
        response.status == 409 || response.status == 412 ==> e is Conflict,
        response.status == 429 ==> (e matches Error::RateLimited { retry_after_ms, .. } && {
            let hv = find_header(
                headers_view(response.headers@),
                lower_bytes("Retry-After".spec_bytes()),
            );
            &&& hv is None ==> retry_after_ms is None
            &&& hv matches Some(v) ==> exists|now: u64|
                retry_after_ms == #[trigger] crate::retry::retry_after_spec(v, now)
            &&& hv matches Some(v) ==> match crate::text::parse_u64_spec(
                trim_spec(encode_utf8(v)),
            ) {
                Some(secs) => retry_after_ms == Some(crate::retry::secs_to_ms(secs)),
                None => true,
            }
        }),
        !(response.status == 401 || response.status == 403 || response.status == 404
            || response.status == 409 || response.status == 412 || response.status == 429) ==> e
            is Api,
{
    let message = match vendor_message(&response.body) {
        Some(m) => m,
        None => status_message(response.status),
    };
    let info = ErrorInfo {
        status: Some(response.status),
        method: Some(method),
        path: Some(path),
        message: Some(message),
        request_id,
        body_snippet: crate::redact::maybe_body_snippet(
            capture_body_snippet,
            &response.body,
            max_body_snippet_len,
        ),
    };
    let status = response.status;
    if status == 401 || status == 403 {
        Error::Auth { info }
    } else if status == 404 {
        Error::NotFound { info }
    } else if status == 409 || status == 412 {
        Error::Conflict { info }
    } else if status == 429 {
        let retry_after_ms = parse_retry_after(&response.headers);
        Error::RateLimited { info, retry_after_ms }
    } else {
        Error::Api { info }
    }
}

/// Classifies a well-formed vendor error record: an authentication error
/// when the code is in the fixed auth-code set, whatever the HTTP status;
/// otherwise an API error. The request id from the response headers wins
/// over the record's own. The message is `code: message`.
pub fn classify_aliyun_error(
    method: String,
    path: String,
    status: u16,
    request_id: Option<String>,
    body: VendorError,
    body_snippet: Option<String>,
) -> (e: Error)
    ensures
        e.spec_info() matches Some(info) && {
            &&& info.status == Some(status)
            &&& info.method matches Some(m) && m@ == method@
            &&& info.path matches Some(p) && p@ == path@
            &&& info.request_id == (match request_id {
                Some(r) => Some(r),
                None => body.request_id,
            })
            &&& info.message matches Some(m) && m@ == body.code@ + ": "@ + body.message@
            &&& info.body_snippet == body_snippet
        },
        e is Auth <==> spec_is_auth_code(body.code@),
        !spec_is_auth_code(body.code@) ==> e is Api,
{
    let auth = is_auth_error_code(body.code.as_str());
    let resolved_request_id = match request_id {
        Some(r) => Some(r),
        None => body.request_id,
    };
    let message = body.code.concat(": ").concat(body.message.as_str());
    let info = ErrorInfo {
        status: Some(status),
        method: Some(method),
        path: Some(path),
        message: Some(message),
        request_id: resolved_request_id,
        body_snippet,
    };
    if auth {
        Error::Auth { info }
    } else {
        Error::Api { info }
    }
}

/// A 2xx payload handed back for decoding, with the status it arrived
/// under and the request id its headers carried.
pub struct Payload {
    pub status: u16,
    pub request_id: Option<String>,
    pub body: Vec<u8>,
}

/// The resolved request id matches what the headers carry, per the
/// request-id resolution rule.
pub open spec fn rid_matches(rid: Option<String>, headers: Seq<(Seq<char>, Seq<char>)>) -> bool {
    match rid {
        Some(s) => match request_id_of(headers) {
            Some(t) => valid_utf8(t) && s@ == decode_utf8(t),
            None => false,
        },
        None => match request_id_of(headers) {
            Some(t) => !valid_utf8(t),
            None => true,
        },
    }
}

/// Interprets a raw response: a non-2xx status is classified by status; a
/// 2xx body holding the vendor error record is classified by its code; any
/// other 2xx body is handed back as a payload for decoding, with its
/// status and resolved request id.
pub fn interpret_response(
    method: String,
    path: String,
    response: Response,
    capture_body_snippet: bool,
    max_body_snippet_len: usize,
) -> (r: Result<Payload, Error>)
    ensures
        r matches Ok(p) ==> 200 <= p.status < 300 && p.status == response.status && p.body@
            == response.body@ && !decodable_vendor_error(response.body@) && rid_matches(
            p.request_id,
            headers_view(response.headers@),
        ),
        r matches Err(e) ==> !(e is InvalidConfig) && !(e is Decode) && !(e is Transport),
        (200 <= response.status < 300 && !decodable_vendor_error(response.body@)) <==> r is Ok,
        !(200 <= response.status < 300) ==> (r matches Err(e) && e.spec_info() matches Some(info)
            && classified_info(
            info,
            method,
            path,
            response,
            info.request_id,
            capture_body_snippet,
            max_body_snippet_len as int,
        ) && rid_matches(info.request_id, headers_view(response.headers@)) && {
            &&& response.status == 401 || response.status == 403 ==> e is Auth
            &&& response.status == 404 ==> e is NotFound
            &&& response.status == 409 || response.status == 412 ==> e is Conflict
            &&& response.status == 429 ==> e is RateLimited
            &&& !(response.status == 401 || response.status == 403 || response.status == 404
                || response.status == 409 || response.status == 412 || response.status == 429)
                ==> e is Api
        }),
        (200 <= response.status < 300 && decodable_vendor_error(response.body@)) ==> (r matches Err(
            e,
        ) && e.spec_info() matches Some(info) && {
            &&& info.status == Some(response.status)
            &&& info.method matches Some(mm) && mm@ == method@
            &&& info.path matches Some(pp) && pp@ == path@
            &&& (e is Auth <==> spec_is_auth_code(
                decode_utf8(vendor_error_of(response.body@)->Some_0.0),
            ))
            &&& e is Auth || e is Api
        }),
{
    let request_id = extract_request_id(&response.headers);
    if !(200 <= response.status && response.status < 300) {
        return Err(
            classify_http_error(
                method,
                path,
                &response,
                request_id,
                capture_body_snippet,
                max_body_snippet_len,
            ),
        );
    }
    match decode_vendor_error(&response.body) {
        Some(ve) => {
            let body_snippet = crate::redact::maybe_body_snippet(
                capture_body_snippet,
                &response.body,
                max_body_snippet_len,
            );
            Err(
                classify_aliyun_error(
                    method,
                    path,
                    response.status,
                    request_id,
                    ve,
                    body_snippet,
                ),
            )
        },
        None => Ok(Payload { status: response.status, request_id, body: response.body }),
    }
}

} // verus!
