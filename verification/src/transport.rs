//! The transport boundary: the request and raw response values exchanged
//! with a transport, the pluggable blocking transport contract, and header
//! lookup on raw responses.

use vstd::prelude::*;
use vstd::string::{StrSliceExecFns, StringSliceAdditionalSpecFns};
use vstd::utf8::encode_utf8;
use crate::error::TransportFailure;
use crate::text::bytes_equal;

verus! {

/// A fully built HTTP request for one attempt; every retry attempt is
/// built afresh, with a newly signed URL.
#[derive(Clone, Debug)]
pub struct Request {
    pub method: String,
    pub url: String,
    pub headers: Vec<(String, String)>,
    pub timeout_ms: u64,
}

/// A raw HTTP response: status, headers and body, un-interpreted.
#[derive(Clone, Debug)]
pub struct Response {
    pub status: u16,
    pub headers: Vec<(String, String)>,
    pub body: Vec<u8>,
}

/// A transport that sends a built request on the calling thread and hands
/// back the raw response, and that sleeps between retry attempts. The two
/// methods promise nothing: the retry logic above them is verified for
/// every outcome.
pub trait BlockingTransport {
    /// Sends the request, blocking until the response is fully read or the
    /// timeout elapses.
    fn send(&self, request: &Request) -> Result<Response, TransportFailure>;

    /// Blocks the calling thread for the given delay.
    fn sleep_ms(&self, delay_ms: u64);
}

/// The ASCII-lowercase folding of a byte.
pub open spec fn lower_byte(b: u8) -> u8 {
    if 0x41 <= b <= 0x5a {
        (b + 0x20) as u8
    } else {
        b
    }
}

/// ASCII-lowercase folding of a byte sequence.
pub open spec fn lower_bytes(s: Seq<u8>) -> Seq<u8> {
    s.map_values(|b: u8| lower_byte(b))
}

/// Header pairs as character sequences.
pub open spec fn headers_view(h: Seq<(String, String)>) -> Seq<(Seq<char>, Seq<char>)> {
    h.map_values(|p: (String, String)| (p.0@, p.1@))
}

/// The value of the first header whose ASCII-case-folded name equals
/// `name` (itself already folded).
pub open spec fn find_header(headers: Seq<(Seq<char>, Seq<char>)>, name: Seq<u8>) -> Option<
    Seq<char>,
>
    decreases headers.len(),
{
    if headers.len() == 0 {
        None
    } else if lower_bytes(encode_utf8(headers[0].0)) == name {
        Some(headers[0].1)
    } else {
        find_header(headers.drop_first(), name)
    }
}

fn lower_byte_exec(b: u8) -> (r: u8)
    ensures
        r == lower_byte(b),
{
    if 0x41 <= b && b <= 0x5a {
        b + 0x20
    } else {
        b
    }
}

/// Folds a byte vector to ASCII lowercase.
pub fn lower_bytes_exec(s: &Vec<u8>) -> (r: Vec<u8>)
    ensures
        r@ == lower_bytes(s@),
{
    let n = s.len();
    let mut out: Vec<u8> = Vec::new();
    let mut i: usize = 0;
    while i < n
        invariant
            0 <= i <= n,
            n == s@.len(),
            out@ == lower_bytes(s@.take(i as int)),
        decreases n - i,
    {
        out.push(lower_byte_exec(s[i]));
        proof {
            assert(s@.take(i + 1) =~= s@.take(i as int).push(s@[i as int]));
            assert(out@ =~= lower_bytes(s@.take(i + 1)));
        }
        i = i + 1;
    }
    proof {
        assert(s@.take(n as int) =~= s@);
    }
    out
}

/// Looks up a header by name, ASCII-case-insensitively. Returns the first
/// match.
pub fn header_value(headers: &Vec<(String, String)>, name: &str) -> (r: Option<String>)
    ensures
        match r {
            Some(v) => find_header(headers_view(headers@), lower_bytes(name.spec_bytes())) == Some(
                v@,
            ),
            None => find_header(headers_view(headers@), lower_bytes(name.spec_bytes())) is None,
        },
{
    let raw = name.as_bytes_vec();
    let nb = lower_bytes_exec(&raw);
    let n = headers.len();
    let mut i: usize = 0;
    proof {
        assert(headers_view(headers@).skip(0) =~= headers_view(headers@));
    }
    while i < n
        invariant
            0 <= i <= n,
            n == headers@.len(),
            nb@ == lower_bytes(name.spec_bytes()),
            find_header(headers_view(headers@), nb@) == find_header(
                headers_view(headers@).skip(i as int),
                nb@,
            ),
        decreases n - i,
    {
        let hb = headers[i].0.as_str().as_bytes_vec();
        let folded = lower_bytes_exec(&hb);
        proof {
            let hv = headers_view(headers@);
            assert(hv.skip(i as int)[0] == hv[i as int]);
            assert(hv[i as int].0 == headers@[i as int].0@);
            assert(hv.skip(i as int).drop_first() =~= hv.skip(i + 1));
        }
        if bytes_equal(&folded, &nb) {
            let v = headers[i].1.clone();
            return Some(v);
        }
        i = i + 1;
    }
    proof {
        assert(headers_view(headers@).skip(n as int).len() == 0);
    }
    None
}

} // verus!
