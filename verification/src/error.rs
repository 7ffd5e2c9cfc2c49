//! The closed error taxonomy: configuration, authentication, not-found,
//! conflict, rate-limit, generic API, transport and decode errors, each
//! carrying printable diagnostics.

use vstd::prelude::*;
use vstd::string::StringExecFns;
use crate::text::{ascii_chars, ascii_string, dec_digits, format_u64, lemma_dec_digits_ascii};

verus! {

/// Diagnostics attached to a classified error; safe to print.
#[derive(Clone, Debug)]
pub struct ErrorInfo {
    pub status: Option<u16>,
    pub method: Option<String>,
    pub path: Option<String>,
    pub message: Option<String>,
    pub request_id: Option<String>,
    pub body_snippet: Option<String>,
}

impl Default for ErrorInfo {
    /// Diagnostics with every field absent.
    fn default() -> (r: ErrorInfo)
        ensures
            r.status is None,
            r.method is None,
            r.path is None,
            r.message is None,
            r.request_id is None,
            r.body_snippet is None,
    {
        ErrorInfo {
            status: None,
            method: None,
            path: None,
            message: None,
            request_id: None,
            body_snippet: None,
        }
    }
}

/// The class of an I/O fault found in a transport failure's cause chain,
/// as far as the retry rules care: the connection-level classes by name,
/// anything else as `Other`.
#[derive(Clone, Copy, Debug, PartialEq, Eq, Structural)]
pub enum IoFailureClass {
    TimedOut,
    ConnectionRefused,
    ConnectionReset,
    ConnectionAborted,
    NotConnected,
    AddrInUse,
    AddrNotAvailable,
    Other,
}

/// The I/O fault classes that may be retried.
pub open spec fn spec_retryable_io_class(k: IoFailureClass) -> bool {
    !(k is Other)
}

/// Whether an I/O fault class belongs to the retryable set: timeouts and
/// the connection-level faults, exactly.
pub fn is_retryable_io_class(k: IoFailureClass) -> (r: bool)
    ensures
        r == spec_retryable_io_class(k),
{
    match k {
        IoFailureClass::Other => false,
        _ => true,
    }
}

/// A transport-level failure: the message describes the underlying cause,
/// and the flag says whether the failure class may be retried.
#[derive(Clone, Debug)]
pub struct TransportFailure {
    pub message: String,
    pub retryable: bool,
}

/// Classified client error.
#[derive(Debug)]
pub enum Error {
    /// Configuration or input validation errors.
    InvalidConfig { message: String },
    /// Authentication errors (401/403, or API-level auth failures).
    Auth { info: ErrorInfo },
    /// Resource not found (404).
    NotFound { info: ErrorInfo },
    /// Conflict errors (409/412).
    Conflict { info: ErrorInfo },
    /// Rate limited (429), with the advisory pacing delay if the server
    /// supplied one, in milliseconds.
    RateLimited { info: ErrorInfo, retry_after_ms: Option<u64> },
    /// API errors (non-2xx responses or well-formed error bodies).
    Api { info: ErrorInfo },
    /// Network/TLS/timeout failures, cause preserved.
    Transport { info: ErrorInfo, source: TransportFailure },
    /// The response body matched neither the expected payload shape nor the
    /// vendor error record.
    Decode { info: ErrorInfo },
}

/// The retryable HTTP status codes.
pub open spec fn spec_retryable_status(status: u16) -> bool {
    status == 429 || status == 502 || status == 503 || status == 504
}

impl Error {
    /// The diagnostics carried by the error, if any; configuration errors
    /// carry none.
    pub open spec fn spec_info(&self) -> Option<ErrorInfo> {
        match self {
            Error::InvalidConfig { .. } => None,
            Error::Auth { info } => Some(*info),
            Error::NotFound { info } => Some(*info),
            Error::Conflict { info } => Some(*info),
            Error::RateLimited { info, .. } => Some(*info),
            Error::Api { info } => Some(*info),
            Error::Transport { info, .. } => Some(*info),
            Error::Decode { info } => Some(*info),
        }
    }

    /// Whether retrying the failed call could succeed: rate-limit and
    /// transport errors always; status-classified errors exactly when the
    /// carried status is a retryable one; decode and configuration errors
    /// never.
    pub open spec fn spec_is_retryable(&self) -> bool {
        match self {
            Error::RateLimited { .. } => true,
            Error::Transport { .. } => true,
            Error::Api { info } | Error::Auth { info } | Error::NotFound { info }
            | Error::Conflict { info } => match info.status {
                Some(s) => spec_retryable_status(s),
                None => false,
            },
            Error::Decode { .. } | Error::InvalidConfig { .. } => false,
        }
    }

    /// A configuration error with the given message.
    pub fn invalid_config(message: String) -> (r: Error)
        ensures
            r == (Error::InvalidConfig { message }),
    {
        Error::InvalidConfig { message }
    }

    /// The HTTP status the error carries, if any.
    pub fn status(&self) -> (r: Option<u16>)
        ensures
            r == match self.spec_info() {
                Some(info) => info.status,
                None => None::<u16>,
            },
    {
        match self {
            Error::InvalidConfig { .. } => None,
            Error::Auth { info } => info.status,
            Error::NotFound { info } => info.status,
            Error::Conflict { info } => info.status,
            Error::RateLimited { info, .. } => info.status,
            Error::Api { info } => info.status,
            Error::Transport { info, .. } => info.status,
            Error::Decode { info } => info.status,
        }
    }

    /// The request id the error carries, if any.
    pub fn request_id(&self) -> (r: Option<String>)
        ensures
            r == match self.spec_info() {
                Some(info) => info.request_id,
                None => None::<String>,
            },
    {
        match self {
            Error::InvalidConfig { .. } => None,
            Error::Auth { info } => info.request_id.clone(),
            Error::NotFound { info } => info.request_id.clone(),
            Error::Conflict { info } => info.request_id.clone(),
            Error::RateLimited { info, .. } => info.request_id.clone(),
            Error::Api { info } => info.request_id.clone(),
            Error::Transport { info, .. } => info.request_id.clone(),
            Error::Decode { info } => info.request_id.clone(),
        }
    }

    /// The redacted body snippet the error carries, if any.
    pub fn body_snippet(&self) -> (r: Option<String>)
        ensures
            r == match self.spec_info() {
                Some(info) => info.body_snippet,
                None => None::<String>,
            },
    {
        match self {
            Error::InvalidConfig { .. } => None,
            Error::Auth { info } => info.body_snippet.clone(),
            Error::NotFound { info } => info.body_snippet.clone(),
            Error::Conflict { info } => info.body_snippet.clone(),
            Error::RateLimited { info, .. } => info.body_snippet.clone(),
            Error::Api { info } => info.body_snippet.clone(),
            Error::Transport { info, .. } => info.body_snippet.clone(),
            Error::Decode { info } => info.body_snippet.clone(),
        }
    }

    /// The message the error carries, if any.
    pub fn message(&self) -> (r: Option<String>)
        ensures
            r == match self {
                Error::InvalidConfig { message } => Some(*message),
                _ => match self.spec_info() {
                    Some(info) => info.message,
                    None => None::<String>,
                },
            },
    {
        match self {
            Error::InvalidConfig { message } => Some(message.clone()),
            Error::Auth { info } => info.message.clone(),
            Error::NotFound { info } => info.message.clone(),
            Error::Conflict { info } => info.message.clone(),
            Error::RateLimited { info, .. } => info.message.clone(),
            Error::Api { info } => info.message.clone(),
            Error::Transport { info, .. } => info.message.clone(),
            Error::Decode { info } => info.message.clone(),
        }
    }

    /// The request path the error carries, if any.
    pub fn path(&self) -> (r: Option<String>)
        ensures
            r == match self.spec_info() {
                Some(info) => info.path,
                None => None::<String>,
            },
    {
        match self {
            Error::InvalidConfig { .. } => None,
            Error::Auth { info } => info.path.clone(),
            Error::NotFound { info } => info.path.clone(),
            Error::Conflict { info } => info.path.clone(),
            Error::RateLimited { info, .. } => info.path.clone(),
            Error::Api { info } => info.path.clone(),
            Error::Transport { info, .. } => info.path.clone(),
            Error::Decode { info } => info.path.clone(),
        }
    }

    /// The HTTP method the error carries, if any.
    pub fn method(&self) -> (r: Option<String>)
        ensures
            r == match self.spec_info() {
                Some(info) => info.method,
                None => None::<String>,
            },
    {
        match self {
            Error::InvalidConfig { .. } => None,
            Error::Auth { info } => info.method.clone(),
            Error::NotFound { info } => info.method.clone(),
            Error::Conflict { info } => info.method.clone(),
            Error::RateLimited { info, .. } => info.method.clone(),
            Error::Api { info } => info.method.clone(),
            Error::Transport { info, .. } => info.method.clone(),
            Error::Decode { info } => info.method.clone(),
        }
    }

    /// Whether this is an authentication error.
    pub fn is_auth_error(&self) -> (r: bool)
        ensures
            r == (self is Auth),
    {
        match self {
            Error::Auth { .. } => true,
            _ => false,
        }
    }

    /// Whether retrying the failed call could succeed.
    pub fn is_retryable(&self) -> (r: bool)
        ensures
            r == self.spec_is_retryable(),
    {
        match self {
            Error::RateLimited { .. } => true,
            Error::Transport { .. } => true,
            Error::Api { info } | Error::Auth { info } | Error::NotFound { info }
            | Error::Conflict { info } => match info.status {
                Some(s) => s == 429 || s == 502 || s == 503 || s == 504,
                None => false,
            },
            Error::Decode { .. } | Error::InvalidConfig { .. } => false,
        }
    }
}

/// The parenthesized diagnostic parts a rendering shows, in order:
/// status, request or path, request id, message.
pub open spec fn info_parts(info: ErrorInfo) -> Seq<Seq<char>> {
    let status_part: Seq<Seq<char>> = match info.status {
        Some(s) => seq!["status="@ + ascii_chars(dec_digits(s as nat))],
        None => seq![],
    };
    let request_part: Seq<Seq<char>> = match (info.method, info.path) {
        (Some(m), Some(p)) => seq!["request="@ + m@ + " "@ + p@],
        (None, Some(p)) => seq!["path="@ + p@],
        _ => seq![],
    };
    let id_part: Seq<Seq<char>> = match info.request_id {
        Some(r) => seq!["request_id="@ + r@],
        None => seq![],
    };
    let message_part: Seq<Seq<char>> = match info.message {
        Some(m) => seq!["message="@ + m@],
        None => seq![],
    };
    status_part + request_part + id_part + message_part
}

/// The parts joined with `, `.
pub open spec fn join_parts(parts: Seq<Seq<char>>) -> Seq<char>
    decreases parts.len(),
{
    if parts.len() == 0 {
        Seq::empty()
    } else if parts.len() == 1 {
        parts[0]
    } else {
        join_parts(parts.drop_last()) + ", "@ + parts.last()
    }
}

/// What the diagnostics add to a rendering: nothing when empty, else the
/// parts joined in parentheses.
pub open spec fn display_suffix_spec(info: ErrorInfo) -> Seq<char> {
    let parts = info_parts(info);
    if parts.len() == 0 {
        Seq::empty()
    } else {
        " ("@ + join_parts(parts) + ")"@
    }
}

/// What rendering an error shows: a fixed phrase for its class, and
/// whatever of status, method and path, request id, and message the
/// diagnostics hold. The raw secret is never part of it.
pub open spec fn describe_spec(e: Error) -> Seq<char> {
    match e {
        Error::InvalidConfig { message } => "invalid configuration: "@ + message@,
        Error::Auth { info } => "authentication failed"@ + display_suffix_spec(info),
        Error::NotFound { info } => "resource not found"@ + display_suffix_spec(info),
        Error::Conflict { info } => "request conflict"@ + display_suffix_spec(info),
        Error::RateLimited { info, retry_after_ms } => (match retry_after_ms {
            Some(w) => "rate limited (retry-after-ms="@ + ascii_chars(dec_digits(w as nat))
                + ")"@,
            None => "rate limited"@,
        }) + display_suffix_spec(info),
        Error::Api { info } => "api error"@ + display_suffix_spec(info),
        Error::Transport { info, .. } => "transport error"@ + display_suffix_spec(info),
        Error::Decode { info } => "decode error"@ + display_suffix_spec(info),
    }
}

fn push_part(parts: &mut Vec<String>, label: &str, value: &String)
    ensures
        final(parts)@.len() == old(parts)@.len() + 1,
        final(parts)@ == old(parts)@.push(final(parts)@.last()),
        final(parts)@.last()@ == label@ + value@,
{
    let ghost before = parts@;
    let part = label.to_owned().concat(value.as_str());
    parts.push(part);
    proof {
        assert(final(parts)@ =~= before.push(final(parts)@.last()));
    }
}

fn display_suffix(info: &ErrorInfo) -> (r: String)
    ensures
        r@ == display_suffix_spec(*info),
{
    let ghost spec_parts = info_parts(*info);
    let mut parts: Vec<String> = Vec::new();
    match &info.status {
        Some(s) => {
            let digits = format_u64(*s as u64);
            proof {
                lemma_dec_digits_ascii(*s as nat);
            }
            let ds = ascii_string(digits);
            push_part(&mut parts, "status=", &ds);
        },
        None => {},
    }
    match (&info.method, &info.path) {
        (Some(m), Some(p)) => {
            let v = m.clone().concat(" ").concat(p.as_str());
            push_part(&mut parts, "request=", &v);
        },
        (None, Some(p)) => {
            push_part(&mut parts, "path=", p);
        },
        _ => {},
    }
    match &info.request_id {
        Some(rid) => {
            push_part(&mut parts, "request_id=", rid);
        },
        None => {},
    }
    match &info.message {
        Some(m) => {
            push_part(&mut parts, "message=", m);
        },
        None => {},
    }
    proof {
        assert(parts@.len() == spec_parts.len());
        assert(forall|i: int| 0 <= i < parts@.len() ==> (#[trigger] parts@[i])@ == spec_parts[i]);
    }
    if parts.len() == 0 {
        proof {
            reveal_strlit("");
            assert(""@ =~= Seq::<char>::empty());
        }
        return "".to_owned();
    }
    let mut out: String = " (".to_owned();
    let n = parts.len();
    let mut i: usize = 0;
    while i < n
        invariant
            0 < n == parts@.len() == spec_parts.len(),
            0 <= i <= n,
            forall|j: int| 0 <= j < n ==> (#[trigger] parts@[j])@ == spec_parts[j],
            i == 0 ==> out@ == " ("@,
            i > 0 ==> out@ == " ("@ + join_parts(spec_parts.take(i as int)),
        decreases n - i,
    {
        if i > 0 {
            out.append(", ");
        }
        out.append(parts[i].as_str());
        proof {
            let t = spec_parts.take(i + 1);
            assert(t.drop_last() =~= spec_parts.take(i as int));
            assert(t.last() == spec_parts[i as int]);
            if i == 0 {
                assert(t.len() == 1);
                assert(t[0] == spec_parts[0]);
                assert(out@ =~= " ("@ + join_parts(t));
            } else {
                assert(out@ =~= " ("@ + (join_parts(spec_parts.take(i as int)) + ", "@
                    + spec_parts[i as int]));
                assert(out@ =~= " ("@ + join_parts(t));
            }
        }
        i = i + 1;
    }
    proof {
        assert(spec_parts.take(n as int) =~= spec_parts);
    }
    let r = out.concat(")");
    proof {
        assert(r@ =~= " ("@ + join_parts(spec_parts) + ")"@);
    }
    r
}

impl Error {
    /// Renders the error for people: its class, and whatever of status,
    /// method and path, request id, and message it carries. No rendering
    /// path includes a raw secret.
    pub fn describe(&self) -> (r: String)
        ensures
            r@ == describe_spec(*self),
    {
        match self {
            Error::InvalidConfig { message } => "invalid configuration: ".to_owned().concat(
                message.as_str(),
            ),
            Error::Auth { info } => "authentication failed".to_owned().concat(
                display_suffix(info).as_str(),
            ),
            Error::NotFound { info } => "resource not found".to_owned().concat(
                display_suffix(info).as_str(),
            ),
            Error::Conflict { info } => "request conflict".to_owned().concat(
                display_suffix(info).as_str(),
            ),
            Error::RateLimited { info, retry_after_ms } => {
                let head: String = match retry_after_ms {
                    Some(w) => {
                        let digits = format_u64(*w);
                        proof {
                            lemma_dec_digits_ascii(*w as nat);
                        }
                        let ds = ascii_string(digits);
                        "rate limited (retry-after-ms=".to_owned().concat(ds.as_str()).concat(
                            ")",
                        )
                    },
                    None => "rate limited".to_owned(),
                };
                head.concat(display_suffix(info).as_str())
            },
            Error::Api { info } => "api error".to_owned().concat(display_suffix(info).as_str()),
            Error::Transport { info, .. } => "transport error".to_owned().concat(
                display_suffix(info).as_str(),
            ),
            Error::Decode { info } => "decode error".to_owned().concat(
                display_suffix(info).as_str(),
            ),
        }
    }
}

} // verus!
