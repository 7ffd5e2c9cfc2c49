//! Retry policy and pacing: the retryable status set, capped exponential
//! backoff with full jitter, and `Retry-After` parsing as integer seconds
//! or an HTTP date.

use vstd::prelude::*;
use vstd::arithmetic::power2::pow2;
use vstd::bits::lemma_u64_shl_is_mul;
use vstd::string::{StrSliceExecFns, StringSliceAdditionalSpecFns};
use vstd::utf8::encode_utf8;
use crate::error::spec_retryable_status;
use crate::text::{parse_u64, parse_u64_spec, trim_bytes, trim_spec};
use crate::transport::{find_header, headers_view, lower_bytes};

verus! {

/// Bounds on retrying: `max_retries` further attempts after the first, and
/// the base and cap of the backoff delay, in milliseconds.
#[derive(Clone, Debug)]
pub struct RetryPolicy {
    pub max_retries: u64,
    pub base_delay_ms: u64,
    pub max_delay_ms: u64,
}

impl RetryPolicy {
    /// The base delay never exceeds the cap.
    pub open spec fn wf(&self) -> bool {
        self.base_delay_ms <= self.max_delay_ms
    }
}

impl Default for RetryPolicy {
    /// A conservative default: three retries, 200 ms base delay, 10 s cap.
    fn default() -> (r: RetryPolicy)
        ensures
            r.max_retries == 3,
            r.base_delay_ms == 200,
            r.max_delay_ms == 10000,
            r.wf(),
    {
        RetryPolicy { max_retries: 3, base_delay_ms: 200, max_delay_ms: 10000 }
    }
}

/// Whether a response status calls for a retry: exactly the statuses 429,
/// 502, 503 and 504.
pub fn should_retry_status(status: u16) -> (r: bool)
    ensures
        r == spec_retryable_status(status),
{
    status == 429 || status == 502 || status == 503 || status == 504
}

/// The backoff cap for an attempt: the base delay doubled per attempt
/// (exponent clamped to avoid overflow), itself capped at the policy's
/// maximum delay.
pub open spec fn backoff_cap_spec(policy: RetryPolicy, attempt: u64) -> u64 {
    let e = if attempt < 31 {
        attempt as nat
    } else {
        31nat
    };
    let raw = policy.base_delay_ms * pow2(e);
    if raw > policy.max_delay_ms {
        policy.max_delay_ms
    } else {
        raw as u64
    }
}

/// Relies on `fastrand::u64`: a random value in the inclusive range from
/// zero to the bound; within the bound whatever the outcome.
#[verifier::external_body]
fn random_up_to(hi: u64) -> (r: u64)
    ensures
        r <= hi,
{
    fastrand::u64(0..=hi)
}

/// The backoff delay before the given retry attempt: full jitter, a
/// uniformly random delay up to the capped exponential bound. Never
/// exceeds the policy's maximum delay.
pub fn backoff_delay(policy: &RetryPolicy, attempt: u64) -> (r: u64)
    requires
        policy.wf(),
    ensures
        r <= backoff_cap_spec(*policy, attempt),
        r <= policy.max_delay_ms,
{
    let e: u64 = if attempt < 31 {
        attempt
    } else {
        31
    };
    let exp: u64 = 1u64 << e;
    proof {
        vstd::bits::lemma_u64_pow2_no_overflow(e as nat);
        assert(1 * pow2(e as nat) == pow2(e as nat));
        lemma_u64_shl_is_mul(1u64, e);
        assert(exp == pow2(e as nat));
        vstd::arithmetic::power2::lemma_pow2_pos(e as nat);
    }
    let base = policy.base_delay_ms;
    let max = policy.max_delay_ms;
    let cap: u64 = if exp != 0 && base > max / exp {
        proof {
            assert(base * exp > max) by (nonlinear_arith)
                requires
                    exp > 0,
                    base > max / exp,
            ;
        }
        max
    } else {
        proof {
            assert(base * exp <= max) by (nonlinear_arith)
                requires
                    exp > 0,
                    base <= max / exp,
            ;
        }
        let raw = base * exp;
        if raw > max {
            max
        } else {
            raw
        }
    };
    random_up_to(cap)
}

/// What `httpdate` reads a byte sequence as: the HTTP date it denotes, as
/// whole seconds since the Unix epoch, if it denotes one; a function of
/// the bytes alone.
pub uninterp spec fn http_date_of(s: Seq<u8>) -> Option<u64>;

/// Relies on `httpdate::parse_http_date`: reads an HTTP date (RFC 1123,
/// RFC 850 or asctime form) into seconds since the Unix epoch; the result
/// depends on the bytes alone.
#[verifier::external_body]
fn parse_http_date_bytes(s: &Vec<u8>) -> (r: Option<u64>)
    ensures
        r == http_date_of(s@),
{
    let text = core::str::from_utf8(s.as_slice()).ok()?;
    let date = httpdate::parse_http_date(text).ok()?;
    let since_epoch = date.duration_since(std::time::UNIX_EPOCH).ok()?;
    Some(since_epoch.as_secs())
}

/// Seconds as milliseconds, saturating.
pub open spec fn secs_to_ms(secs: u64) -> u64 {
    if secs > u64::MAX / 1000 {
        u64::MAX
    } else {
        (secs * 1000) as u64
    }
}

fn secs_to_ms_exec(secs: u64) -> (r: u64)
    ensures
        r == secs_to_ms(secs),
{
    if secs > u64::MAX / 1000 {
        proof {
            assert(secs * 1000 > u64::MAX) by (nonlinear_arith)
                requires
                    secs > u64::MAX / 1000,
            ;
        }
        u64::MAX
    } else {
        proof {
            assert(secs * 1000 <= u64::MAX) by (nonlinear_arith)
                requires
                    secs <= u64::MAX / 1000,
            ;
        }
        secs * 1000
    }
}

/// The pacing delay a `Retry-After` value denotes, against the given
/// clock: integer seconds, or the remaining time until an HTTP date; an
/// elapsed date, or an unreadable value, denotes none.
pub open spec fn retry_after_spec(value: Seq<char>, now_unix_secs: u64) -> Option<u64> {
    let tv = trim_spec(encode_utf8(value));
    match parse_u64_spec(tv) {
        Some(secs) => Some(secs_to_ms(secs)),
        None => match http_date_of(tv) {
            Some(date) => if date >= now_unix_secs {
                Some(secs_to_ms((date - now_unix_secs) as u64))
            } else {
                None
            },
            None => None,
        },
    }
}

/// Reads one `Retry-After` value against the given clock.
pub fn retry_after_hint(value: &str, now_unix_secs: u64) -> (r: Option<u64>)
    ensures
        r == retry_after_spec(value@, now_unix_secs),
{
    let vb = value.as_bytes_vec();
    let tv = trim_bytes(&vb);
    match parse_u64(&tv) {
        Some(secs) => Some(secs_to_ms_exec(secs)),
        None => match parse_http_date_bytes(&tv) {
            Some(date) => {
                if date >= now_unix_secs {
                    Some(secs_to_ms_exec(date - now_unix_secs))
                } else {
                    None
                }
            },
            None => None,
        },
    }
}

/// Reads the server's pacing hint from a response's `Retry-After` header,
/// against the real clock. An integer value gives exactly that many
/// seconds; a date value gives at most the time remaining until it.
pub fn parse_retry_after(headers: &Vec<(String, String)>) -> (r: Option<u64>)
    ensures
        ({
            let hv = find_header(headers_view(headers@), lower_bytes("Retry-After".spec_bytes()));
            &&& hv is None ==> r is None
            &&& hv matches Some(v) ==> exists|now: u64| r == #[trigger] retry_after_spec(v, now)
            &&& hv matches Some(v) ==> match parse_u64_spec(trim_spec(encode_utf8(v))) {
                Some(secs) => r == Some(secs_to_ms(secs)),
                None => true,
            }
        }),
{
    match crate::transport::header_value(headers, "Retry-After") {
        Some(v) => {
            let now = crate::timestamp::now_unix_secs();
            let r = retry_after_hint(v.as_str(), now);
            proof {
                let hv = find_header(
                    headers_view(headers@),
                    lower_bytes("Retry-After".spec_bytes()),
                );
                assert(r == retry_after_spec(hv->Some_0, now));
            }
            r
        },
        None => None,
    }
}

/// The delay before the next retry attempt, given the response that
/// prompted it: the server's `Retry-After` hint when the response carries
/// a usable one — an integer hint verbatim, a date hint against the real
/// clock — else capped, jittered exponential backoff.
pub fn retry_delay(policy: &RetryPolicy, attempt: u64, headers: &Vec<(String, String)>) -> (r: u64)
    requires
        policy.wf(),
    ensures
        ({
            let hv = find_header(headers_view(headers@), lower_bytes("Retry-After".spec_bytes()));
            &&& hv is None ==> r <= backoff_cap_spec(*policy, attempt) && r
                <= policy.max_delay_ms
            &&& hv matches Some(v) ==> match parse_u64_spec(trim_spec(encode_utf8(v))) {
                Some(secs) => r == secs_to_ms(secs),
                None => true,
            }
            &&& hv matches Some(v) ==> (exists|now: u64| #[trigger] retry_after_spec(v, now)
                == Some(r)) || r <= backoff_cap_spec(*policy, attempt)
        }),
{
    match parse_retry_after(headers) {
        Some(d) => d,
        None => backoff_delay(policy, attempt),
    }
}

} // verus!
