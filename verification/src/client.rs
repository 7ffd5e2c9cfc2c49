//! The blocking client: builds signed requests, drives the pluggable
//! transport through the bounded retry loop with backoff and
//! server-driven pacing, and turns raw responses into payload bytes or a
//! classified error. Service entry points wrap the supported operations.

use vstd::prelude::*;
use vstd::string::{StringExecFns, StringSliceAdditionalSpecFns};
use vstd::utf8::encode_utf8;
use crate::auth::{AccessKey, Auth};
use crate::baseurl::{endpoint, parse_base_url, BaseUrl};
use crate::envelope::{decodable_vendor_error, interpret_response, Payload};
use crate::error::{spec_retryable_status, Error, ErrorInfo};
use crate::json::{parse_json, Json};
use crate::params::{build_canonicalized_query, ParamMap};
use crate::redact::{maybe_body_snippet, snippet_spec};
use crate::retry::{backoff_delay, retry_delay, should_retry_status, RetryPolicy};
use crate::baseurl::{endpoint_path_spec, seg_views};
use crate::sign::{inject_common_rpc_params, injected_params, signature, signature_spec};
use crate::transport::{BlockingTransport, Request, Response};
use crate::types::{
    parse_caller_identity, CallerIdentity, DeleteInstanceParams, DescribeAccountAttributesParams,
    DescribeAvailableResourceParams, DescribeInstanceStatusParams, DescribeInstancesParams,
    DescribeRecommendInstanceTypeParams, DescribeRegionsParams, DescribeResourcesModificationParams,
    DescribeZonesParams, QueryAccountBalanceParams, RebootInstanceParams, RunInstancesParams,
    StartInstancesParams, StopInstancesParams,
};

verus! {

/// A client over a blocking transport: read-only configuration shared by
/// every call.
pub struct BlockingClient<T: BlockingTransport> {
    auth: Auth,
    ecs: BaseUrl,
    sts: BaseUrl,
    billing: BaseUrl,
    timeout_ms: u64,
    default_headers: Vec<(String, String)>,
    capture_body_snippet: bool,
    body_snippet_max_len: usize,
    retry: RetryPolicy,
    transport: T,
}

/// The headers with every entry of the given folded name removed, in
/// order.
pub open spec fn remove_header(h: Seq<(String, String)>, name: Seq<u8>) -> Seq<(String, String)>
    decreases h.len(),
{
    if h.len() == 0 {
        h
    } else {
        let rest = remove_header(h.drop_last(), name);
        if crate::transport::lower_bytes(encode_utf8(h.last().0@)) == name {
            rest
        } else {
            rest.push(h.last())
        }
    }
}

/// Configuration gathered before a client is built.
pub struct BlockingClientBuilder {
    pub auth: Auth,
    pub ecs_endpoint: String,
    pub sts_endpoint: String,
    pub billing_endpoint: String,
    pub timeout_ms: u64,
    pub connect_timeout_ms: u64,
    pub default_headers: Vec<(String, String)>,
    pub capture_body_snippet: bool,
    pub body_snippet_max_len: usize,
    pub retry: RetryPolicy,
}

impl BlockingClientBuilder {
    /// A builder with the default endpoints, timeouts, retry policy, and
    /// snippet capture on.
    pub fn new() -> (r: BlockingClientBuilder)
        ensures
            r.retry.wf(),
            r.capture_body_snippet == true,
            r.body_snippet_max_len == 4096,
            r.retry.max_retries == 3,
            r.auth is Anonymous,
    {
        let mut default_headers: Vec<(String, String)> = Vec::new();
        default_headers.push(("user-agent".to_owned(), "alibabacloud/0.1.0".to_owned()));
        BlockingClientBuilder {
            auth: Auth::none(),
            ecs_endpoint: "https://ecs.aliyuncs.com/".to_owned(),
            sts_endpoint: "https://sts.aliyuncs.com/".to_owned(),
            billing_endpoint: "https://business.aliyuncs.com/".to_owned(),
            timeout_ms: 30000,
            connect_timeout_ms: 10000,
            default_headers,
            capture_body_snippet: true,
            body_snippet_max_len: 4096,
            retry: RetryPolicy { max_retries: 3, base_delay_ms: 200, max_delay_ms: 10000 },
        }
    }

    /// Sets the authentication configuration.
    pub fn auth(self, auth: Auth) -> (r: BlockingClientBuilder)
        ensures
            r == (BlockingClientBuilder { auth, ..self }),
    {
        BlockingClientBuilder { auth, ..self }
    }

    /// Overrides the compute-service endpoint.
    pub fn ecs_endpoint(self, endpoint_url: String) -> (r: BlockingClientBuilder)
        ensures
            r == (BlockingClientBuilder { ecs_endpoint: endpoint_url, ..self }),
    {
        BlockingClientBuilder { ecs_endpoint: endpoint_url, ..self }
    }

    /// Overrides the token-service endpoint.
    pub fn sts_endpoint(self, endpoint_url: String) -> (r: BlockingClientBuilder)
        ensures
            r == (BlockingClientBuilder { sts_endpoint: endpoint_url, ..self }),
    {
        BlockingClientBuilder { sts_endpoint: endpoint_url, ..self }
    }

    /// Overrides the billing-service endpoint.
    pub fn billing_endpoint(self, endpoint_url: String) -> (r: BlockingClientBuilder)
        ensures
            r == (BlockingClientBuilder { billing_endpoint: endpoint_url, ..self }),
    {
        BlockingClientBuilder { billing_endpoint: endpoint_url, ..self }
    }

    /// Sets the whole-request timeout, in milliseconds.
    pub fn timeout_ms(self, timeout_ms: u64) -> (r: BlockingClientBuilder)
        ensures
            r == (BlockingClientBuilder { timeout_ms, ..self }),
    {
        BlockingClientBuilder { timeout_ms, ..self }
    }

    /// Sets the connect timeout, in milliseconds.
    pub fn connect_timeout_ms(self, connect_timeout_ms: u64) -> (r: BlockingClientBuilder)
        ensures
            r == (BlockingClientBuilder { connect_timeout_ms, ..self }),
    {
        BlockingClientBuilder { connect_timeout_ms, ..self }
    }

    /// Turns body-snippet capture on or off.
    pub fn capture_body_snippet(self, enabled: bool) -> (r: BlockingClientBuilder)
        ensures
            r == (BlockingClientBuilder { capture_body_snippet: enabled, ..self }),
    {
        BlockingClientBuilder { capture_body_snippet: enabled, ..self }
    }

    /// Bounds the captured body snippet's length.
    pub fn body_snippet_max_len(self, max_len: usize) -> (r: BlockingClientBuilder)
        ensures
            r == (BlockingClientBuilder { body_snippet_max_len: max_len, ..self }),
    {
        BlockingClientBuilder { body_snippet_max_len: max_len, ..self }
    }

    /// Bounds the retries after the first attempt.
    pub fn max_retries(self, max_retries: u64) -> (r: BlockingClientBuilder)
        ensures
            r.retry.max_retries == max_retries,
            r.retry.base_delay_ms == self.retry.base_delay_ms,
            r.retry.max_delay_ms == self.retry.max_delay_ms,
            r == (BlockingClientBuilder {
                retry: RetryPolicy { max_retries, ..self.retry },
                ..self
            }),
    {
        BlockingClientBuilder { retry: RetryPolicy { max_retries, ..self.retry }, ..self }
    }

    /// Sets the base backoff delay, in milliseconds.
    pub fn retry_base_delay_ms(self, base_delay_ms: u64) -> (r: BlockingClientBuilder)
        ensures
            r == (BlockingClientBuilder {
                retry: RetryPolicy { base_delay_ms, ..self.retry },
                ..self
            }),
    {
        BlockingClientBuilder { retry: RetryPolicy { base_delay_ms, ..self.retry }, ..self }
    }

    /// Caps the backoff delay, in milliseconds.
    pub fn retry_max_delay_ms(self, max_delay_ms: u64) -> (r: BlockingClientBuilder)
        ensures
            r == (BlockingClientBuilder {
                retry: RetryPolicy { max_delay_ms, ..self.retry },
                ..self
            }),
    {
        BlockingClientBuilder { retry: RetryPolicy { max_delay_ms, ..self.retry }, ..self }
    }

    /// Adds one default header sent with every request, replacing any
    /// existing header of the same name, compared
    /// ASCII-case-insensitively.
    pub fn default_header(self, name: String, value: String) -> (r: BlockingClientBuilder)
        ensures
            r.default_headers@ == remove_header(
                self.default_headers@,
                crate::transport::lower_bytes(encode_utf8(name@)),
            ).push((name, value)),
            r.auth == self.auth,
            r.retry == self.retry,
    {
        let nb = crate::transport::lower_bytes_exec(&name.as_str().as_bytes_vec());
        let n = self.default_headers.len();
        let mut headers: Vec<(String, String)> = Vec::new();
        let mut i: usize = 0;
        proof {
            assert(self.default_headers@.take(0) =~= Seq::<(String, String)>::empty());
        }
        while i < n
            invariant
                0 <= i <= n,
                n == self.default_headers@.len(),
                nb@ == crate::transport::lower_bytes(encode_utf8(name@)),
                headers@ == remove_header(self.default_headers@.take(i as int), nb@),
            decreases n - i,
        {
            let hb = crate::transport::lower_bytes_exec(
                &self.default_headers[i].0.as_str().as_bytes_vec(),
            );
            let ghost before = headers@;
            if !crate::text::bytes_equal(&hb, &nb) {
                let hname = self.default_headers[i].0.clone();
                let hvalue = self.default_headers[i].1.clone();
                headers.push((hname, hvalue));
            }
            proof {
                let t = self.default_headers@.take(i + 1);
                assert(t.drop_last() =~= self.default_headers@.take(i as int));
                assert(t.last() == self.default_headers@[i as int]);
                assert(headers@ =~= remove_header(t, nb@));
            }
            i = i + 1;
        }
        proof {
            assert(self.default_headers@.take(n as int) =~= self.default_headers@);
        }
        headers.push((name, value));
        BlockingClientBuilder { default_headers: headers, ..self }
    }

    /// Replaces the default headers sent with every request.
    pub fn default_headers(self, headers: Vec<(String, String)>) -> (r: BlockingClientBuilder)
        ensures
            r == (BlockingClientBuilder { default_headers: headers, ..self }),
    {
        BlockingClientBuilder { default_headers: headers, ..self }
    }

    /// Validates the configuration and builds a client over the given
    /// transport. Fails exactly when a configured base URL is invalid —
    /// not hierarchical, or holding a query or fragment — or when the
    /// retry policy's base delay exceeds its cap.
    pub fn build_with_transport<T: BlockingTransport>(self, transport: T) -> (r: Result<
        BlockingClient<T>,
        Error,
    >)
        ensures
            match r {
                Ok(c) => {
                    &&& c.wf()
                    &&& self.retry.wf()
                    &&& crate::baseurl::parse_base_url_spec(encode_utf8(self.ecs_endpoint@))
                        == Some((c.spec_ecs().prefix_bytes(), c.spec_ecs().path_bytes()))
                    &&& crate::baseurl::parse_base_url_spec(encode_utf8(self.sts_endpoint@))
                        == Some((c.spec_sts().prefix_bytes(), c.spec_sts().path_bytes()))
                    &&& crate::baseurl::parse_base_url_spec(encode_utf8(self.billing_endpoint@))
                        == Some((c.spec_billing().prefix_bytes(), c.spec_billing().path_bytes()))
                    &&& c.spec_auth() == self.auth
                    &&& c.spec_retry() == self.retry
                    &&& c.spec_capture_body_snippet() == self.capture_body_snippet
                    &&& c.spec_body_snippet_max_len() == self.body_snippet_max_len
                },
                Err(e) => {
                    &&& e is InvalidConfig
                    &&& {
                        ||| !self.retry.wf()
                        ||| crate::baseurl::parse_base_url_spec(encode_utf8(self.ecs_endpoint@))
                            is None
                        ||| crate::baseurl::parse_base_url_spec(encode_utf8(self.sts_endpoint@))
                            is None
                        ||| crate::baseurl::parse_base_url_spec(
                            encode_utf8(self.billing_endpoint@),
                        ) is None
                    }
                },
            },
    {
        if self.retry.base_delay_ms > self.retry.max_delay_ms {
            return Err(
                Error::invalid_config("retry base delay must not exceed the cap".to_owned()),
            );
        }
        let ecs = parse_base_url(self.ecs_endpoint.as_str())?;
        let sts = parse_base_url(self.sts_endpoint.as_str())?;
        let billing = parse_base_url(self.billing_endpoint.as_str())?;
        Ok(
            BlockingClient {
                auth: self.auth,
                ecs,
                sts,
                billing,
                timeout_ms: self.timeout_ms,
                default_headers: self.default_headers,
                capture_body_snippet: self.capture_body_snippet,
                body_snippet_max_len: self.body_snippet_max_len,
                retry: self.retry,
                transport,
            },
        )
    }
}

/// A caller's parameter map with the call parameters merged: `Action` and
/// `Version` set, and `Format` defaulted to `JSON` where the caller set
/// none.
pub open spec fn with_call_params(
    m: Map<Seq<u8>, Seq<u8>>,
    action: Seq<char>,
    version: Seq<char>,
) -> Map<Seq<u8>, Seq<u8>> {
    let m1 = m.insert("Action".spec_bytes(), encode_utf8(action)).insert(
        "Version".spec_bytes(),
        encode_utf8(version),
    );
    if m1.contains_key("Format".spec_bytes()) {
        m1
    } else {
        m1.insert("Format".spec_bytes(), "JSON".spec_bytes())
    }
}

/// What building a signed request promises: there is a pre-signature map
/// (the caller's map with the call parameters and the common signed
/// parameters merged) and a signed map (that map with `Signature` set to
/// the signature of the pre-signature canonical query — the signature's
/// own entry is not part of its input); the path is the base URL's
/// endpoint path, and the URL is the base URL followed by `?` and the
/// canonical query string of the signed map.
pub open spec fn signed_request_ok(
    base_map: Map<Seq<u8>, Seq<u8>>,
    key: AccessKey,
    action: Seq<char>,
    version: Seq<char>,
    base: BaseUrl,
    url: Seq<char>,
    path: Seq<char>,
) -> bool {
    exists|presign: ParamMap, signed: ParamMap|
        #![trigger presign.canonical_spec(), signed.canonical_spec()]
        {
            &&& presign.wf()
            &&& injected_params(with_call_params(base_map, action, version), presign@, key)
            &&& signed.wf()
            &&& signed@ == presign@.insert(
                "Signature".spec_bytes(),
                encode_utf8(signature_spec("GET"@, presign.canonical_spec(), key.spec_secret())),
            )
            &&& encode_utf8(path) == endpoint_path_spec(base.path_bytes(), Seq::<Seq<u8>>::empty())
            &&& encode_utf8(url) == base.prefix_bytes() + encode_utf8(path) + seq![0x3fu8]
                + encode_utf8(signed.canonical_spec())
        }
}

/// Builds the signed request for one RPC call: merges the call parameters
/// and the common signed parameters, signs the canonical query with the
/// access key's secret, and appends `Signature`; hands back the full URL
/// and its path. Fails only when the clock cannot be rendered.
pub fn sign_request(
    access_key: &AccessKey,
    base: &BaseUrl,
    action: &str,
    version: &str,
    params: ParamMap,
) -> (r: Result<(String, String), Error>)
    requires
        base.wf(),
        params.wf(),
    ensures
        r matches Ok(up) ==> signed_request_ok(
            params@,
            *access_key,
            action@,
            version@,
            *base,
            up.0@,
            up.1@,
        ),
        r matches Err(e) ==> (e matches Error::InvalidConfig { message } && message@
            == "failed to format timestamp"@),
{
    let ghost base_map = params@;
    let mut params = params;
    params.insert("Action", action);
    params.insert("Version", version);
    if !params.contains_key("Format") {
        params.insert("Format", "JSON");
    }
    proof {
        assert(params@ == with_call_params(base_map, action@, version@));
    }
    match inject_common_rpc_params(&mut params, access_key) {
        Ok(()) => {},
        Err(e) => {
            return Err(e);
        },
    }
    let ghost presign = params;
    let canonical_query = build_canonicalized_query(&params);
    let sig = match signature("GET", canonical_query.as_str(), access_key.secret().expose()) {
        Ok(s) => s,
        Err(_) => {
            return vstd::pervasive::unreached();
        },
    };
    params.insert("Signature", sig.as_str());
    let ghost signed = params;
    let signed_query = build_canonicalized_query(&params);
    let segments: Vec<String> = Vec::new();
    let (full, path) = match endpoint(base, &segments) {
        Ok(p) => p,
        Err(_) => {
            return vstd::pervasive::unreached();
        },
    };
    let url = full.concat("?").concat(signed_query.as_str());
    proof {
        assert(seg_views(segments@) =~= Seq::<Seq<u8>>::empty());
        reveal_strlit("?");
        assert((0x3fu8) as char == '?');
        assert("?"@ =~= crate::text::ascii_chars(seq![0x3fu8]));
        crate::text::lemma_ascii_decode(seq![0x3fu8]);
        assert(encode_utf8("?"@) == seq![0x3fu8]);
        crate::baseurl::lemma_encode_concat(full@, "?"@);
        crate::baseurl::lemma_encode_concat(full@ + "?"@, signed_query@);
        assert(encode_utf8(url@) == encode_utf8(full@) + seq![0x3fu8] + encode_utf8(
            signed_query@,
        ));
        assert(signed_request_ok(
            base_map,
            *access_key,
            action@,
            version@,
            *base,
            url@,
            path@,
        )) by {
            assert(presign.wf());
            assert(injected_params(
                with_call_params(base_map, action@, version@),
                presign@,
                *access_key,
            ));
            assert(signed.wf());
            assert(signed@ == presign@.insert(
                "Signature".spec_bytes(),
                encode_utf8(
                    signature_spec("GET"@, presign.canonical_spec(), access_key.spec_secret()),
                ),
            ));
            assert(encode_utf8(path@) == endpoint_path_spec(
                base.path_bytes(),
                Seq::<Seq<u8>>::empty(),
            ));
            assert(encode_utf8(url@) == base.prefix_bytes() + encode_utf8(path@) + seq![0x3fu8]
                + encode_utf8(signed.canonical_spec()));
        }
    }
    Ok((url, path))
}

impl<T: BlockingTransport> BlockingClient<T> {
    /// The client's configuration is valid: the retry policy and the base
    /// URLs are well-formed.
    pub closed spec fn wf(&self) -> bool {
        &&& self.retry.wf()
        &&& self.ecs.wf()
        &&& self.sts.wf()
        &&& self.billing.wf()
    }

    /// The authentication configuration.
    pub closed spec fn spec_auth(&self) -> Auth {
        self.auth
    }

    /// The retry policy.
    pub closed spec fn spec_retry(&self) -> RetryPolicy {
        self.retry
    }

    /// Whether body snippets are captured.
    pub closed spec fn spec_capture_body_snippet(&self) -> bool {
        self.capture_body_snippet
    }

    /// The captured snippet length bound.
    pub closed spec fn spec_body_snippet_max_len(&self) -> usize {
        self.body_snippet_max_len
    }

    /// The compute-service base URL.
    pub closed spec fn spec_ecs(&self) -> BaseUrl {
        self.ecs
    }

    /// The token-service base URL.
    pub closed spec fn spec_sts(&self) -> BaseUrl {
        self.sts
    }

    /// The billing-service base URL.
    pub closed spec fn spec_billing(&self) -> BaseUrl {
        self.billing
    }

    /// The compute-service entry point.
    pub fn ecs(&self) -> (r: BlockingEcsService<'_, T>)
        ensures
            r.client == self,
    {
        BlockingEcsService { client: self }
    }

    /// The token-service entry point.
    pub fn sts(&self) -> (r: BlockingStsService<'_, T>)
        ensures
            r.client == self,
    {
        BlockingStsService { client: self }
    }

    /// The billing-service entry point.
    pub fn billing(&self) -> (r: BlockingBillingService<'_, T>)
        ensures
            r.client == self,
    {
        BlockingBillingService { client: self }
    }

    /// Builds one attempt's request: the caller's parameters signed
    /// afresh — a new nonce, a new timestamp, a new signature — as a
    /// `GET` of the signed URL under the base endpoint. Fails only when
    /// the clock cannot be rendered.
    fn signed_attempt(
        &self,
        access_key: &AccessKey,
        base: &BaseUrl,
        action: &str,
        version: &str,
        params: &ParamMap,
    ) -> (r: Result<(Request, String), Error>)
        requires
            self.wf(),
            base.wf(),
            params.wf(),
        ensures
            r matches Ok(rp) ==> {
                &&& signed_request_ok(
                    params@,
                    *access_key,
                    action@,
                    version@,
                    *base,
                    rp.0.url@,
                    rp.1@,
                )
                &&& rp.0.method@ == "GET"@
                &&& encode_utf8(rp.1@) == endpoint_path_spec(
                    base.path_bytes(),
                    Seq::<Seq<u8>>::empty(),
                )
            },
            r matches Err(e) ==> (e matches Error::InvalidConfig { message } && message@
                == "failed to format timestamp"@),
    {
        let fresh = params.duplicate();
        let (url, path) = match sign_request(access_key, base, action, version, fresh) {
            Ok(up) => up,
            Err(e) => {
                return Err(e);
            },
        };
        let request = Request {
            method: "GET".to_owned(),
            url,
            headers: clone_headers(&self.default_headers),
            timeout_ms: self.timeout_ms,
        };
        Ok((request, path))
    }

    /// Drives the attempts of one logical call: each attempt rebuilds the
    /// whole signed request — fresh nonce, fresh timestamp, fresh
    /// signature — and sends it, retrying on retryable statuses and
    /// retryable transport failures at most `max_retries` times beyond the
    /// first attempt, pacing each retry by the server's hint or by capped,
    /// jittered exponential backoff. Returns the final response and the
    /// endpoint path with the number of attempts taken: a response with a
    /// retryable status, or a retryable failure, is surfaced only once the
    /// attempts are exhausted.
    fn send_with_retries(
        &self,
        access_key: &AccessKey,
        base: &BaseUrl,
        action: &str,
        version: &str,
        params: &ParamMap,
    ) -> (r: (Result<(Response, String), Error>, Ghost<int>))
        requires
            self.wf(),
            base.wf(),
            params.wf(),
        ensures
            1 <= r.1@ <= self.retry.max_retries + 1,
            (r.0 matches Ok(rp) && spec_retryable_status(rp.0.status)) ==> r.1@
                == self.retry.max_retries + 1,
            r.0 matches Ok(rp) ==> encode_utf8(rp.1@) == endpoint_path_spec(
                base.path_bytes(),
                Seq::<Seq<u8>>::empty(),
            ),
            r.0 matches Err(e) ==> match e {
                Error::InvalidConfig { message } => message@ == "failed to format timestamp"@,
                Error::Transport { info, source } => {
                    &&& info.status is None
                    &&& info.method matches Some(mm) && mm@ == "GET"@
                    &&& info.path matches Some(pp) && encode_utf8(pp@) == endpoint_path_spec(
                        base.path_bytes(),
                        Seq::<Seq<u8>>::empty(),
                    )
                    &&& info.message is None
                    &&& info.request_id is None
                    &&& info.body_snippet is None
                    &&& source.retryable ==> r.1@ == self.retry.max_retries + 1
                },
                _ => false,
            },
    {
        let mut attempt: u64 = 0;
        loop
            invariant
                self.wf(),
                base.wf(),
                params.wf(),
                attempt <= self.retry.max_retries,
            decreases self.retry.max_retries - attempt,
        {
            let (request, path) = match self.signed_attempt(
                access_key,
                base,
                action,
                version,
                params,
            ) {
                Ok(rp) => rp,
                Err(e) => {
                    return (Err(e), Ghost(attempt as int + 1));
                },
            };
            match self.transport.send(&request) {
                Ok(response) => {
                    if attempt >= self.retry.max_retries || !should_retry_status(
                        response.status,
                    ) {
                        return (Ok((response, path)), Ghost(attempt as int + 1));
                    }
                    let delay = retry_delay(&self.retry, attempt, &response.headers);
                    self.transport.sleep_ms(delay);
                    attempt = attempt + 1;
                },
                Err(failure) => {
                    if attempt < self.retry.max_retries && failure.retryable {
                        let delay = backoff_delay(&self.retry, attempt);
                        self.transport.sleep_ms(delay);
                        attempt = attempt + 1;
                    } else {
                        let e = Error::Transport {
                            info: ErrorInfo {
                                status: None,
                                method: Some("GET".to_owned()),
                                path: Some(path),
                                message: None,
                                request_id: None,
                                body_snippet: None,
                            },
                            source: failure,
                        };
                        return (Err(e), Ghost(attempt as int + 1));
                    }
                },
            }
        }
    }

    /// The diagnostics attached to a payload that failed to decode, with
    /// the field at which the mismatch occurred.
    fn decode_error(&self, method: String, path: String, payload: Payload, at: String) -> (e:
        Error)
        ensures
            e is Decode,
            e.spec_info() matches Some(info) && {
                &&& info.status == Some(payload.status)
                &&& info.method matches Some(mm) && mm@ == method@
                &&& info.path matches Some(pp) && pp@ == path@
                &&& info.request_id == payload.request_id
                &&& info.message matches Some(msg) && msg@ == "decode failed at "@ + at@
                &&& !self.spec_capture_body_snippet() ==> info.body_snippet is None
                &&& self.spec_capture_body_snippet() ==> match info.body_snippet {
                    Some(s) => snippet_spec(
                        payload.body@,
                        self.spec_body_snippet_max_len() as int,
                    ) == Some(s@),
                    None => snippet_spec(
                        payload.body@,
                        self.spec_body_snippet_max_len() as int,
                    ) is None,
                }
            },
    {
        Error::Decode {
            info: ErrorInfo {
                status: Some(payload.status),
                method: Some(method),
                path: Some(path),
                message: Some("decode failed at ".to_owned().concat(at.as_str())),
                request_id: payload.request_id,
                body_snippet: maybe_body_snippet(
                    self.capture_body_snippet,
                    &payload.body,
                    self.body_snippet_max_len,
                ),
            },
        }
    }

    /// Issues one signed RPC call: every attempt signs the caller's
    /// parameters afresh and sends them, and the final response is
    /// interpreted into a payload or a classified error. Requires
    /// access-key authentication: without it, and only without it, the
    /// call is declined as a configuration error before anything is sent.
    fn rpc_json(&self, base: &BaseUrl, action: &str, version: &str, params: ParamMap) -> (r:
        Result<Payload, Error>)
        requires
            self.wf(),
            base.wf(),
            params.wf(),
        ensures
            self.spec_auth().spec_access_key() is None ==> (r matches Err(
                Error::InvalidConfig { message },
            ) && message@ == "access key authentication is required"@),
            (r matches Err(e) && e matches Error::InvalidConfig { message } && message@
                == "access key authentication is required"@) ==> self.spec_auth().spec_access_key()
                is None,
            r matches Ok(p) ==> 200 <= p.status < 300 && !decodable_vendor_error(p.body@),
            r matches Err(e) ==> !(e is Decode),
    {
        let access_key = match self.auth.as_access_key() {
            Some(k) => k,
            None => {
                return Err(
                    Error::invalid_config("access key authentication is required".to_owned()),
                );
            },
        };
        let (outcome, _attempts) = self.send_with_retries(
            access_key,
            base,
            action,
            version,
            &params,
        );
        let (response, path) = match outcome {
            Ok(rp) => rp,
            Err(e) => {
                proof {
                    reveal_strlit("failed to format timestamp");
                    reveal_strlit("access key authentication is required");
                    assert("failed to format timestamp"@.len() == 26);
                    assert("access key authentication is required"@.len() == 37);
                }
                return Err(e);
            },
        };
        interpret_response(
            "GET".to_owned(),
            path,
            response,
            self.capture_body_snippet,
            self.body_snippet_max_len,
        )
    }
}

fn clone_headers(headers: &Vec<(String, String)>) -> (r: Vec<(String, String)>)
    ensures
        r@.len() == headers@.len(),
        forall|i: int|
            0 <= i < headers@.len() ==> (#[trigger] r@[i]).0@ == headers@[i].0@ && r@[i].1@
                == headers@[i].1@,
{
    let n = headers.len();
    let mut out: Vec<(String, String)> = Vec::new();
    let mut i: usize = 0;
    while i < n
        invariant
            0 <= i <= n,
            n == headers@.len(),
            out@.len() == i,
            forall|j: int|
                0 <= j < i ==> (#[trigger] out@[j]).0@ == headers@[j].0@ && out@[j].1@
                    == headers@[j].1@,
        decreases n - i,
    {
        let name = headers[i].0.clone();
        let value = headers[i].1.clone();
        out.push((name, value));
        i = i + 1;
    }
    out
}

/// Compute-service operations.
pub struct BlockingEcsService<'a, T: BlockingTransport> {
    pub client: &'a BlockingClient<T>,
}

impl<'a, T: BlockingTransport> BlockingEcsService<'a, T> {
    fn rpc_json_value(&self, action: &str, params: ParamMap) -> (r: Result<Json, Error>)
        requires
            self.client.wf(),
            params.wf(),
        ensures
            self.client.spec_auth().spec_access_key() is None ==> r matches Err(
                Error::InvalidConfig { .. },
            ),
            r matches Ok(v) ==> exists|b: Seq<u8>|
                #[trigger] crate::json::json_tree_of(b) == Some(v@) && !decodable_vendor_error(b),
    {
        let payload = self.client.rpc_json(&self.client.ecs, action, "2014-05-26", params)?;
        match parse_json(&payload.body) {
            Some(v) => {
                proof {
                    assert(crate::json::json_tree_of(payload.body@) == Some(v@)
                        && !decodable_vendor_error(payload.body@));
                }
                Ok(v)
            },
            None => Err(
                self.client.decode_error(
                    "GET".to_owned(),
                    self.client.ecs.path_string(),
                    payload,
                    ".".to_owned(),
                ),
            ),
        }
    }

    /// Lists regions.
    pub fn describe_regions(&self, params: DescribeRegionsParams) -> (r: Result<Json, Error>)
        requires
            self.client.wf(),
        ensures
            self.client.spec_auth().spec_access_key() is None ==> r matches Err(
                Error::InvalidConfig { .. },
            ),
            r matches Ok(v) ==> exists|b: Seq<u8>|
                #[trigger] crate::json::json_tree_of(b) == Some(v@) && !decodable_vendor_error(b),
    {
        self.rpc_json_value("DescribeRegions", params.into_query())
    }

    /// Lists the zones of a region.
    pub fn describe_zones(&self, params: DescribeZonesParams) -> (r: Result<Json, Error>)
        requires
            self.client.wf(),
        ensures
            self.client.spec_auth().spec_access_key() is None ==> r matches Err(
                Error::InvalidConfig { .. },
            ),
            r matches Ok(v) ==> exists|b: Seq<u8>|
                #[trigger] crate::json::json_tree_of(b) == Some(v@) && !decodable_vendor_error(b),
    {
        self.rpc_json_value("DescribeZones", params.into_query())
    }

    /// Queries available resources in a zone.
    pub fn describe_available_resource(&self, params: DescribeAvailableResourceParams) -> (r:
        Result<Json, Error>)
        requires
            self.client.wf(),
        ensures
            self.client.spec_auth().spec_access_key() is None ==> r matches Err(
                Error::InvalidConfig { .. },
            ),
            r matches Ok(v) ==> exists|b: Seq<u8>|
                #[trigger] crate::json::json_tree_of(b) == Some(v@) && !decodable_vendor_error(b),
    {
        self.rpc_json_value("DescribeAvailableResource", params.into_query())
    }

    /// Reads account attributes.
    pub fn describe_account_attributes(&self, params: DescribeAccountAttributesParams) -> (r:
        Result<Json, Error>)
        requires
            self.client.wf(),
        ensures
            self.client.spec_auth().spec_access_key() is None ==> r matches Err(
                Error::InvalidConfig { .. },
            ),
            r matches Ok(v) ==> exists|b: Seq<u8>|
                #[trigger] crate::json::json_tree_of(b) == Some(v@) && !decodable_vendor_error(b),
    {
        self.rpc_json_value("DescribeAccountAttributes", params.into_query())
    }

    /// Queries resource modification options.
    pub fn describe_resources_modification(&self, params: DescribeResourcesModificationParams) -> (
        r: Result<Json, Error>)
        requires
            self.client.wf(),
        ensures
            self.client.spec_auth().spec_access_key() is None ==> r matches Err(
                Error::InvalidConfig { .. },
            ),
            r matches Ok(v) ==> exists|b: Seq<u8>|
                #[trigger] crate::json::json_tree_of(b) == Some(v@) && !decodable_vendor_error(b),
    {
        self.rpc_json_value("DescribeResourcesModification", params.into_query())
    }

    /// Queries recommended instance types.
    pub fn describe_recommend_instance_type(&self, params: DescribeRecommendInstanceTypeParams)
        -> (r: Result<Json, Error>)
        requires
            self.client.wf(),
        ensures
            self.client.spec_auth().spec_access_key() is None ==> r matches Err(
                Error::InvalidConfig { .. },
            ),
            r matches Ok(v) ==> exists|b: Seq<u8>|
                #[trigger] crate::json::json_tree_of(b) == Some(v@) && !decodable_vendor_error(b),
    {
        self.rpc_json_value("DescribeRecommendInstanceType", params.into_query())
    }

    /// Launches instances.
    pub fn run_instances(&self, params: RunInstancesParams) -> (r: Result<Json, Error>)
        requires
            self.client.wf(),
        ensures
            self.client.spec_auth().spec_access_key() is None ==> r matches Err(
                Error::InvalidConfig { .. },
            ),
            r matches Ok(v) ==> exists|b: Seq<u8>|
                #[trigger] crate::json::json_tree_of(b) == Some(v@) && !decodable_vendor_error(b),
    {
        self.rpc_json_value("RunInstances", params.into_query())
    }

    /// Starts instances.
    pub fn start_instances(&self, params: StartInstancesParams) -> (r: Result<Json, Error>)
        requires
            self.client.wf(),
        ensures
            self.client.spec_auth().spec_access_key() is None ==> r matches Err(
                Error::InvalidConfig { .. },
            ),
            r matches Ok(v) ==> exists|b: Seq<u8>|
                #[trigger] crate::json::json_tree_of(b) == Some(v@) && !decodable_vendor_error(b),
    {
        self.rpc_json_value("StartInstances", params.into_query())
    }

    /// Stops instances.
    pub fn stop_instances(&self, params: StopInstancesParams) -> (r: Result<Json, Error>)
        requires
            self.client.wf(),
        ensures
            self.client.spec_auth().spec_access_key() is None ==> r matches Err(
                Error::InvalidConfig { .. },
            ),
            r matches Ok(v) ==> exists|b: Seq<u8>|
                #[trigger] crate::json::json_tree_of(b) == Some(v@) && !decodable_vendor_error(b),
    {
        self.rpc_json_value("StopInstances", params.into_query())
    }

    /// Reboots one instance.
    pub fn reboot_instance(&self, params: RebootInstanceParams) -> (r: Result<Json, Error>)
        requires
            self.client.wf(),
        ensures
            self.client.spec_auth().spec_access_key() is None ==> r matches Err(
                Error::InvalidConfig { .. },
            ),
            r matches Ok(v) ==> exists|b: Seq<u8>|
                #[trigger] crate::json::json_tree_of(b) == Some(v@) && !decodable_vendor_error(b),
    {
        self.rpc_json_value("RebootInstance", params.into_query())
    }

    /// Deletes one instance.
    pub fn delete_instance(&self, params: DeleteInstanceParams) -> (r: Result<Json, Error>)
        requires
            self.client.wf(),
        ensures
            self.client.spec_auth().spec_access_key() is None ==> r matches Err(
                Error::InvalidConfig { .. },
            ),
            r matches Ok(v) ==> exists|b: Seq<u8>|
                #[trigger] crate::json::json_tree_of(b) == Some(v@) && !decodable_vendor_error(b),
    {
        self.rpc_json_value("DeleteInstance", params.into_query())
    }

    /// Lists instance statuses.
    pub fn describe_instance_status(&self, params: DescribeInstanceStatusParams) -> (r: Result<
        Json,
        Error,
    >)
        requires
            self.client.wf(),
        ensures
            self.client.spec_auth().spec_access_key() is None ==> r matches Err(
                Error::InvalidConfig { .. },
            ),
            r matches Ok(v) ==> exists|b: Seq<u8>|
                #[trigger] crate::json::json_tree_of(b) == Some(v@) && !decodable_vendor_error(b),
    {
        self.rpc_json_value("DescribeInstanceStatus", params.into_query())
    }

    /// Lists instances.
    pub fn describe_instances(&self, params: DescribeInstancesParams) -> (r: Result<Json, Error>)
        requires
            self.client.wf(),
        ensures
            self.client.spec_auth().spec_access_key() is None ==> r matches Err(
                Error::InvalidConfig { .. },
            ),
            r matches Ok(v) ==> exists|b: Seq<u8>|
                #[trigger] crate::json::json_tree_of(b) == Some(v@) && !decodable_vendor_error(b),
    {
        self.rpc_json_value("DescribeInstances", params.into_query())
    }
}

/// Token-service operations.
pub struct BlockingStsService<'a, T: BlockingTransport> {
    pub client: &'a BlockingClient<T>,
}

impl<'a, T: BlockingTransport> BlockingStsService<'a, T> {
    /// Reads the caller's identity. A 2xx payload that does not match the
    /// identity shape is a decode error naming the mismatched field.
    pub fn get_caller_identity(&self) -> (r: Result<CallerIdentity, Error>)
        requires
            self.client.wf(),
        ensures
            r matches Ok(c) ==> exists|body: Seq<u8>|
                #[trigger] crate::types::decoded_caller_identity(body, c),
            self.client.spec_auth().spec_access_key() is None ==> r matches Err(
                Error::InvalidConfig { .. },
            ),
            r matches Err(e) ==> match e {
                Error::Decode { info } => {
                    &&& info.status is Some
                    &&& info.method matches Some(mm) && mm@ == "GET"@
                    &&& info.message matches Some(msg) && msg@.take(
                        "decode failed at "@.len() as int,
                    ) == "decode failed at "@
                },
                _ => true,
            },
    {
        let payload = self.client.rpc_json(
            &self.client.sts,
            "GetCallerIdentity",
            "2015-04-01",
            ParamMap::new(),
        )?;
        match parse_caller_identity(&payload.body) {
            Some(c) => {
                proof {
                    assert(crate::types::decoded_caller_identity(payload.body@, c));
                }
                Ok(c)
            },
            None => {
                let at = match crate::types::caller_identity_mismatch(&payload.body) {
                    Some(field) => field,
                    None => vstd::pervasive::unreached(),
                };
                Err(
                    self.client.decode_error(
                        "GET".to_owned(),
                        self.client.sts.path_string(),
                        payload,
                        at,
                    ),
                )
            },
        }
    }
}

/// Billing-service operations.
pub struct BlockingBillingService<'a, T: BlockingTransport> {
    pub client: &'a BlockingClient<T>,
}

impl<'a, T: BlockingTransport> BlockingBillingService<'a, T> {
    /// Queries the account balance.
    pub fn query_account_balance(&self, params: QueryAccountBalanceParams) -> (r: Result<
        Json,
        Error,
    >)
        requires
            self.client.wf(),
        ensures
            self.client.spec_auth().spec_access_key() is None ==> r matches Err(
                Error::InvalidConfig { .. },
            ),
            r matches Ok(v) ==> exists|b: Seq<u8>|
                #[trigger] crate::json::json_tree_of(b) == Some(v@) && !decodable_vendor_error(b),
    {
        let payload = self.client.rpc_json(
            &self.client.billing,
            "QueryAccountBalance",
            "2017-12-14",
            params.into_query(),
        )?;
        match parse_json(&payload.body) {
            Some(v) => {
                proof {
                    assert(crate::json::json_tree_of(payload.body@) == Some(v@)
                        && !decodable_vendor_error(payload.body@));
                }
                Ok(v)
            },
            None => Err(
                self.client.decode_error(
                    "GET".to_owned(),
                    self.client.billing.path_string(),
                    payload,
                    ".".to_owned(),
                ),
            ),
        }
    }
}

} // verus!
